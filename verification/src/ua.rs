//! What a user agent says of itself, as plugin scripts see it.

use vstd::prelude::*;
use vstd::string::*;
use crate::uri::{opt_text, text_or_empty};

verus! {

/// The parts of a user agent as its parser names them; a part that the
/// parser did not find is `None`.
#[derive(Clone, Debug)]
pub struct UaParts {
    pub cpu_architecture: Option<String>,
    pub device_brand: Option<String>,
    pub device_model: Option<String>,
    pub device_name: Option<String>,
    pub engine_major: Option<String>,
    pub engine_minor: Option<String>,
    pub engine_name: Option<String>,
    pub engine_patch: Option<String>,
    pub os_major: Option<String>,
    pub os_minor: Option<String>,
    pub os_name: Option<String>,
    pub os_patch: Option<String>,
    pub os_patch_minor: Option<String>,
    pub product_major: Option<String>,
    pub product_minor: Option<String>,
    pub product_name: Option<String>,
    pub product_patch: Option<String>,
}

/// A named value.
#[derive(Clone, Debug)]
pub struct Field {
    pub name: String,
    pub value: String,
}

/// A user agent taken apart. Each group holds its fields under fixed names;
/// a field that was not found is empty.
#[derive(Clone, Debug)]
pub struct UAParser {
    pub ua: String,
    pub product: Vec<Field>,
    pub os: Vec<Field>,
    pub device: Vec<Field>,
    pub cpu: Vec<Field>,
    pub engine: Vec<Field>,
}

/// The fields of a group as mathematical values.
pub open spec fn fields(v: Vec<Field>) -> Seq<(Seq<char>, Seq<char>)> {
    v@.map_values(|f: Field| (f.name@, f.value@))
}

/// The value of a part, or the empty text.
pub open spec fn part(s: Option<String>) -> Seq<char> {
    text_or_empty(opt_text(s))
}

fn field(name: &str, value: &Option<String>) -> (r: Field)
    ensures
        r.name@ == name@,
        r.value@ == part(*value),
{
    Field {
        name: name.to_owned(),
        value: match value {
            Some(v) => v.clone(),
            None => String::new(),
        },
    }
}

impl UAParser {
    /// The user agent `ua` with the parts that its parser found.
    pub fn new(ua: String, parts: &UaParts) -> (r: Self)
        ensures
            r.ua == ua,
            fields(r.cpu) == seq![("arch"@, part(parts.cpu_architecture))],
            fields(r.device) == seq![
                ("brand"@, part(parts.device_brand)),
                ("model"@, part(parts.device_model)),
                ("name"@, part(parts.device_name)),
            ],
            fields(r.engine) == seq![
                ("major"@, part(parts.engine_major)),
                ("minor"@, part(parts.engine_minor)),
                ("name"@, part(parts.engine_name)),
                ("patch"@, part(parts.engine_patch)),
            ],
            fields(r.os) == seq![
                ("major"@, part(parts.os_major)),
                ("minor"@, part(parts.os_minor)),
                ("name"@, part(parts.os_name)),
                ("patch"@, part(parts.os_patch)),
                ("patchMinor"@, part(parts.os_patch_minor)),
            ],
            fields(r.product) == seq![
                ("major"@, part(parts.product_major)),
                ("minor"@, part(parts.product_minor)),
                ("name"@, part(parts.product_name)),
                ("patch"@, part(parts.product_patch)),
            ],
    {
        let mut cpu: Vec<Field> = Vec::new();
        cpu.push(field("arch", &parts.cpu_architecture));
        let mut device: Vec<Field> = Vec::new();
        device.push(field("brand", &parts.device_brand));
        device.push(field("model", &parts.device_model));
        device.push(field("name", &parts.device_name));
        let mut engine: Vec<Field> = Vec::new();
        engine.push(field("major", &parts.engine_major));
        engine.push(field("minor", &parts.engine_minor));
        engine.push(field("name", &parts.engine_name));
        engine.push(field("patch", &parts.engine_patch));
        let mut os: Vec<Field> = Vec::new();
        os.push(field("major", &parts.os_major));
        os.push(field("minor", &parts.os_minor));
        os.push(field("name", &parts.os_name));
        os.push(field("patch", &parts.os_patch));
        os.push(field("patchMinor", &parts.os_patch_minor));
        let mut product: Vec<Field> = Vec::new();
        product.push(field("major", &parts.product_major));
        product.push(field("minor", &parts.product_minor));
        product.push(field("name", &parts.product_name));
        product.push(field("patch", &parts.product_patch));
        let r = UAParser { ua, product, os, device, cpu, engine };
        assert(fields(r.cpu) =~= seq![("arch"@, part(parts.cpu_architecture))]);
        assert(fields(r.device) =~= seq![
            ("brand"@, part(parts.device_brand)),
            ("model"@, part(parts.device_model)),
            ("name"@, part(parts.device_name)),
        ]);
        assert(fields(r.engine) =~= seq![
            ("major"@, part(parts.engine_major)),
            ("minor"@, part(parts.engine_minor)),
            ("name"@, part(parts.engine_name)),
            ("patch"@, part(parts.engine_patch)),
        ]);
        assert(fields(r.os) =~= seq![
            ("major"@, part(parts.os_major)),
            ("minor"@, part(parts.os_minor)),
            ("name"@, part(parts.os_name)),
            ("patch"@, part(parts.os_patch)),
            ("patchMinor"@, part(parts.os_patch_minor)),
        ]);
        assert(fields(r.product) =~= seq![
            ("major"@, part(parts.product_major)),
            ("minor"@, part(parts.product_minor)),
            ("name"@, part(parts.product_name)),
            ("patch"@, part(parts.product_patch)),
        ]);
        r
    }
}

} // verus!
