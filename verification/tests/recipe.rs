use bakery::executers::recipe::Recipe;


#[test]
fn test_recipe_no_task() {
    let recipe: Recipe = Recipe::new("test-image");
    assert_eq!(recipe.bitbake_cmd(), vec!["bitbake", "test-image"]);
}

#[test]
fn test_recipe_sdk() {
    let recipe: Recipe = Recipe::new("test-image:sdk");
    assert_eq!(
        recipe.bitbake_cmd(),
        vec!["bitbake", "test-image", "-c", "do_populate_sdk"]
    );
}

#[test]
fn test_recipe_do_task() {
    let recipe: Recipe = Recipe::new("test-image:do_test_task");
    assert_eq!(
        recipe.bitbake_cmd(),
        vec!["bitbake", "test-image", "-c", "do_test_task"]
    );
}

#[test]
fn test_recipe_task() {
    let recipe: Recipe = Recipe::new("test-image:test");
    assert_eq!(
        recipe.bitbake_cmd(),
        vec!["bitbake", "test-image", "-c", "do_test"]
    );
}
