use defunctionalize::ast::{Attr, Error, Function, Item, ModuleBody, ParamShape};
use defunctionalize::defunctionalize;

fn named(name: &str, ty: &str) -> ParamShape {
    ParamShape::Named { name: name.to_string(), ty: ty.to_string() }
}

fn public_fn(name: &str, params: Vec<ParamShape>, text: &str) -> Item {
    Item::Function(Function {
        name: name.to_string(),
        public: true,
        params,
        text: text.to_string(),
    })
}

fn calc_module() -> ModuleBody {
    ModuleBody {
        name: "calc".to_string(),
        vis: "pub".to_string(),
        attrs: vec![],
        items: vec![
            public_fn(
                "add",
                vec![named("base", "i64"), named("delta", "i64")],
                "pub fn add(base: i64, delta: i64) -> i64 { base + delta }",
            ),
            public_fn(
                "scale",
                vec![named("base", "i64"), named("factor", "i64")],
                "pub fn scale(base: i64, factor: i64) -> i64 { base * factor }",
            ),
        ],
    }
}

#[test]
fn concrete_two_function_scenario() {
    let out = defunctionalize("fn(delta_or_factor: i64) -> i64", &calc_module()).unwrap();
    let expected = "pub mod calc {
pub fn add(base: i64, delta: i64) -> i64 { base + delta }
pub fn scale(base: i64, factor: i64) -> i64 { base * factor }
}

pub enum Calc {
    Add(i64),
    Scale(i64),
}

impl defunctionalize::DeFn<(i64)> for Calc {
    type Output = i64;

    fn call(self, (delta_or_factor): (i64)) -> i64 {
        self.call(delta_or_factor)
    }
}

impl Calc {
    pub fn call(self, delta_or_factor: i64) -> i64 {
        match self {
            Self::Add(base) => calc::add(base, delta_or_factor),
            Self::Scale(base) => calc::scale(base, delta_or_factor),
        }
    }
}
";
    assert_eq!(out, expected);
}

#[test]
fn variant_count_equals_eligible_count() {
    let out = defunctionalize("fn(delta_or_factor: i64) -> i64", &calc_module()).unwrap();
    assert_eq!(out.matches("    Add(i64),").count(), 1);
    assert_eq!(out.matches("    Scale(i64),").count(), 1);
}

#[test]
fn declaration_order_is_preserved() {
    let out = defunctionalize("fn(delta_or_factor: i64) -> i64", &calc_module()).unwrap();
    let add_pos = out.find("    Add(i64),").unwrap();
    let scale_pos = out.find("    Scale(i64),").unwrap();
    assert!(add_pos < scale_pos);
}

#[test]
fn union_name_is_camel_cased_module_name() {
    let module = ModuleBody {
        name: "my_little_helpers".to_string(),
        vis: String::new(),
        attrs: vec![],
        items: vec![public_fn("do_thing", vec![named("x", "u8")], "pub fn do_thing(x: u8) {}")],
    };
    let out = defunctionalize("fn(x: u8)", &module).unwrap();
    assert!(out.contains("enum MyLittleHelpers {\n"));
    assert!(out.contains("    DoThing,\n"));
    assert!(!out.contains("enum my_little_helpers"));
}

#[test]
fn explicit_pattern_name_overrides_module_name() {
    let out = defunctionalize("fn Operation(delta_or_factor: i64) -> i64", &calc_module())
        .unwrap();
    assert!(out.contains("pub enum Operation {\n"));
    assert!(out.contains("impl Operation {\n"));
    assert!(out.contains("impl defunctionalize::DeFn<(i64)> for Operation {\n"));
}

#[test]
fn private_functions_and_other_items_pass_through() {
    let module = ModuleBody {
        name: "m".to_string(),
        vis: "pub".to_string(),
        attrs: vec![],
        items: vec![
            Item::Other("pub struct Unrelated;".to_string()),
            Item::Function(Function {
                name: "hidden".to_string(),
                public: false,
                params: vec![ParamShape::Receiver],
                text: "fn hidden(self) {}".to_string(),
            }),
            public_fn("only", vec![named("x", "u8")], "pub fn only(x: u8) {}"),
        ],
    };
    let out = defunctionalize("fn(x: u8)", &module).unwrap();
    assert!(out.contains("pub struct Unrelated;\n"));
    assert!(out.contains("fn hidden(self) {}\n"));
    assert!(out.contains("    Only,\n"));
    assert!(!out.contains("Hidden"));
}

#[test]
fn zero_common_parameters_capture_everything() {
    let module = ModuleBody {
        name: "jobs".to_string(),
        vis: "pub".to_string(),
        attrs: vec![],
        items: vec![public_fn(
            "run_job",
            vec![named("id", "u32"), named("retries", "u8")],
            "pub fn run_job(id: u32, retries: u8) -> bool { true }",
        )],
    };
    let out = defunctionalize("fn() -> bool", &module).unwrap();
    assert!(out.contains("    RunJob(u32, u8),\n"));
    assert!(out.contains("    pub fn call(self) -> bool {\n"));
    assert!(out.contains("            Self::RunJob(id, retries) => jobs::run_job(id, retries),\n"));
    assert!(out.contains("fn call(self, (): ()) -> bool {\n"));
    assert!(out.contains("        self.call()\n"));
}

#[test]
fn derive_attribute_is_relocated_onto_union() {
    let module = ModuleBody {
        name: "m".to_string(),
        vis: "pub".to_string(),
        attrs: vec![
            Attr { derive: false, text: "#[allow(dead_code)]".to_string() },
            Attr { derive: true, text: "#[derive(Clone, Copy)]".to_string() },
        ],
        items: vec![public_fn("go", vec![named("x", "u8")], "pub fn go(x: u8) {}")],
    };
    let out = defunctionalize("fn(x: u8)", &module).unwrap();
    assert!(out.starts_with("#[allow(dead_code)]\npub mod m {\n"));
    assert!(out.contains("#[derive(Clone, Copy)]\npub enum M {\n"));
    assert_eq!(out.matches("#[derive(Clone, Copy)]").count(), 1);
}

#[test]
fn receiver_parameter_is_rejected() {
    let module = ModuleBody {
        name: "m".to_string(),
        vis: "pub".to_string(),
        attrs: vec![],
        items: vec![
            public_fn("fine", vec![named("x", "u8")], "pub fn fine(x: u8) {}"),
            Item::Function(Function {
                name: "bad".to_string(),
                public: true,
                params: vec![ParamShape::Receiver, named("x", "u8")],
                text: "pub fn bad(self, x: u8) {}".to_string(),
            }),
        ],
    };
    let r = defunctionalize("fn(x: u8)", &module);
    assert_eq!(r, Err(Error::ReceiverNotAllowed { func: 1, param: 0 }));
}

#[test]
fn destructuring_parameter_is_rejected() {
    let module = ModuleBody {
        name: "m".to_string(),
        vis: "pub".to_string(),
        attrs: vec![],
        items: vec![Item::Function(Function {
            name: "bad".to_string(),
            public: true,
            params: vec![
                named("ok", "u8"),
                ParamShape::Pattern { ty: "(u8, u8)".to_string() },
            ],
            text: "pub fn bad(ok: u8, (a, b): (u8, u8)) {}".to_string(),
        })],
    };
    let r = defunctionalize("fn(x: u8)", &module);
    assert_eq!(r, Err(Error::ArgumentMustBeNamed { func: 0, param: 1 }));
}

#[test]
fn arity_underflow_is_rejected() {
    let module = ModuleBody {
        name: "m".to_string(),
        vis: "pub".to_string(),
        attrs: vec![],
        items: vec![public_fn("short", vec![named("x", "u8")], "pub fn short(x: u8) {}")],
    };
    let r = defunctionalize("fn(a: u8, b: u8)", &module);
    assert_eq!(r, Err(Error::ArityUnderflow { func: 0 }));
}

#[test]
fn colliding_tags_are_rejected() {
    let module = ModuleBody {
        name: "m".to_string(),
        vis: "pub".to_string(),
        attrs: vec![],
        items: vec![
            public_fn("do_thing", vec![named("x", "u8")], "pub fn do_thing(x: u8) {}"),
            public_fn("do__thing", vec![named("x", "u8")], "pub fn do__thing(x: u8) {}"),
        ],
    };
    let r = defunctionalize("fn(x: u8)", &module);
    assert_eq!(r, Err(Error::TagCollision { first: 0, second: 1 }));
}

#[test]
fn malformed_pattern_aborts_with_parse_error() {
    let r = defunctionalize("fn(a i64)", &calc_module());
    assert_eq!(r, Err(Error::Parse { at: 5 }));
}

#[test]
fn empty_body_yields_empty_union() {
    let module = ModuleBody {
        name: "void_mod".to_string(),
        vis: String::new(),
        attrs: vec![],
        items: vec![],
    };
    let out = defunctionalize("fn()", &module).unwrap();
    assert!(out.contains("enum VoidMod {\n}\n"));
    assert!(out.contains("        match self {\n        }\n"));
}

#[test]
fn generics_and_where_clause_flow_into_both_impls() {
    let module = ModuleBody {
        name: "generic_mod".to_string(),
        vis: "pub".to_string(),
        attrs: vec![],
        items: vec![public_fn(
            "pick",
            vec![named("label", "u8"), named("value", "T")],
            "pub fn pick<T: Clone>(label: u8, value: T) -> T { value }",
        )],
    };
    let out = defunctionalize("fn<T: Clone>(value: T) -> T where T: Default", &module).unwrap();
    assert!(out.contains(
        "impl<T: Clone> defunctionalize::DeFn<(T)> for GenericMod where T: Default {\n"
    ));
    assert!(out.contains("    pub fn call<T: Clone>(self, value: T) -> T where T: Default {\n"));
    assert!(out.contains("    Pick(u8),\n"));
}
