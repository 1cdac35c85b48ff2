//! The product described by a build configuration: its name, project, product, arch and
//! description.
use vstd::prelude::*;

use crate::configs::config::{get_str_value, parse};
use crate::configs::task::member_or;
use crate::error::BError;
use crate::json::{spec_parse_json, Json};

verus! {

/// The product data as text.
pub struct ProductView {
    pub name: Seq<char>,
    pub project: Seq<char>,
    pub product: Seq<char>,
    pub arch: Seq<char>,
    pub description: Seq<char>,
}

/// The product data written as JSON members:
/// `"name": "<name>","arch": "<arch>", "description": "<description>"`.
pub open spec fn product_text(p: ProductView) -> Seq<char> {
    "\"name\": \""@ + p.name + "\",\"arch\": \""@ + p.arch + "\", \"description\": \""@ + p.description + "\""@
}

/// The product data of a build.
pub struct WsProductData {
    name: String,
    project: String,
    product: String,
    arch: String,
    description: String,
}

impl View for WsProductData {
    type V = ProductView;

    closed spec fn view(&self) -> ProductView {
        ProductView {
            name: self.name@,
            project: self.project@,
            product: self.product@,
            arch: self.arch@,
            description: self.description@,
        }
    }
}

/// The product data that a build configuration describes: `name`, `description` and
/// `arch` default to `NA`; `project` and `product` default to the name.
pub open spec fn spec_product(data: Json) -> ProductView {
    let name = member_or(data, "name"@, "NA"@);
    ProductView {
        name,
        project: member_or(data, "project"@, name),
        product: member_or(data, "product"@, name),
        arch: member_or(data, "arch"@, "NA"@),
        description: member_or(data, "description"@, "NA"@),
    }
}

/// A string entry with a default (reading one never fails).
pub fn str_or_default(name: &str, data: &Json, default: String) -> (res: String)
    ensures
        res@ == member_or(*data, name@, default@),
{
    match get_str_value(name, data, Some(default)) {
        Ok(v) => v,
        Err(_) => String::new(),
    }
}

impl WsProductData {
    /// Reads the product data from the text of a build configuration.
    pub fn from_str(json_string: &str) -> (res: Result<Self, BError>)
        ensures
            match spec_parse_json(json_string@) {
                Ok(data) => res matches Ok(p) && p@ == spec_product(data),
                Err(m) => res matches Err(e) && e is ParseError && e.message() == "Failed to parse JSON: "@ + m,
            },
    {
        let data: Json = parse(json_string)?;
        Self::from_value(&data)
    }

    /// Reads the product data from a build configuration; this never fails.
    pub fn from_value(data: &Json) -> (res: Result<Self, BError>)
        ensures
            res matches Ok(p) && p@ == spec_product(*data),
    {
        let name = str_or_default("name", data, "NA".to_string());
        let project = str_or_default("project", data, name.clone());
        let product = str_or_default("product", data, name.clone());
        let description = str_or_default("description", data, "NA".to_string());
        let arch = str_or_default("arch", data, "NA".to_string());
        Ok(WsProductData { name, project, product, arch, description })
    }

    /// The name.
    pub fn name(&self) -> (res: &str)
        ensures
            res@ == self@.name,
    {
        self.name.as_str()
    }

    /// The product name.
    pub fn product(&self) -> (res: &str)
        ensures
            res@ == self@.product,
    {
        self.product.as_str()
    }

    /// The project name.
    pub fn project(&self) -> (res: &str)
        ensures
            res@ == self@.project,
    {
        self.project.as_str()
    }

    /// The architecture.
    pub fn arch(&self) -> (res: &str)
        ensures
            res@ == self@.arch,
    {
        self.arch.as_str()
    }

    /// The description.
    pub fn description(&self) -> (res: &str)
        ensures
            res@ == self@.description,
    {
        self.description.as_str()
    }

    /// The name, arch and description as JSON members:
    /// `"name": "<name>","arch": "<arch>", "description": "<description>"`.
    pub fn to_string(&self) -> (res: String)
        ensures
            res@ == product_text(self@),
    {
        let s = "\"name\": \"".to_string().concat(self.name.as_str()).concat("\",\"arch\": \"").concat(self.arch.as_str())
            .concat("\", \"description\": \"").concat(self.description.as_str()).concat("\"");
        s
    }
}

} // verus!
