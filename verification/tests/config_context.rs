use bakery::configs::context::Context;
use indexmap::IndexMap;

#[test]
fn test_task_context_expand_str() {
    let mut variables: IndexMap<String, String> = IndexMap::new();
    variables.insert(String::from("VAR1"), String::from("var1"));
    variables.insert(String::from("VAR2"), String::from("var2"));
    variables.insert(String::from("VAR3"), String::from("var3"));
    let ctx: Context = Context::new(&variables);
    assert_eq!(ctx.expand_str("Testing ${VAR1} expansion"), "Testing var1 expansion");
    assert_eq!(ctx.expand_str("Testing ${VAR2} expansion"), "Testing var2 expansion");
    assert_eq!(ctx.expand_str("Testing ${VAR3} expansion"), "Testing var3 expansion");
    assert_eq!(ctx.expand_str("Testing ${VAR1} ${VAR2} ${VAR3} expansion"), "Testing var1 var2 var3 expansion");  
}
