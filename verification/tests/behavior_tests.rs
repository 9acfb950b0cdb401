use lvgl_codegen::{CodeGen, CodeGenError, LvArg, LvFunc, LvType, LvWidget, Rusty, WrapperError};

/// Normalizes a piece of source text to its token spelling.
fn tokens_of(code: &str) -> String {
    code.parse::<proc_macro2::TokenStream>().unwrap().to_string()
}

/// A foreign block around the given declarations.
fn foreign_block(decls: &str) -> String {
    format!("ext{}n \"C\" {{ {} }}", "er", decls)
}

#[test]
fn obj_widget_is_excluded_from_output() {
    let obj_widget = LvWidget {
        name: "obj".to_string(),
        methods: vec![],
    };
    assert!(matches!(obj_widget.code(&()), Err(WrapperError::Skip)));
}

#[test]
fn malformed_input_is_a_fatal_parse_failure() {
    let r = CodeGen::from("pub fn not ( closed {");
    assert!(matches!(r, Err(CodeGenError::ParseFailure)));
}

#[test]
fn empty_input_yields_empty_batch() {
    let cg = CodeGen::from("").unwrap();
    assert_eq!(cg.get_widgets().len(), 0);
    assert_eq!(cg.get_function_names().unwrap().len(), 0);
}

#[test]
fn pipeline_loads_filters_and_groups() {
    let code = foreign_block(
        "pub fn lv_btn_create(parent: *mut lv_obj_t) -> *mut lv_obj_t;
         pub fn lv_btn_toggle(btn: *mut lv_obj_t);
         pub fn lv_btn_set_width(btn: *mut lv_obj_t, w: i32);
         pub fn other_fn(x: u8);
         pub fn lv_misc_helper(a: u8);",
    );
    let cg = CodeGen::from(code.as_str()).unwrap();

    let names = cg.get_function_names().unwrap();
    assert_eq!(
        names,
        vec![
            "lv_btn_create".to_string(),
            "lv_btn_toggle".to_string(),
            "lv_btn_set_width".to_string(),
            "lv_misc_helper".to_string(),
        ]
    );

    let widgets = cg.get_widgets();
    assert_eq!(widgets.len(), 1);
    assert_eq!(widgets[0].name, "btn");
    assert_eq!(widgets[0].methods.len(), 3);
    assert_eq!(widgets[0].methods[0].name, "lv_btn_create");
    assert_eq!(widgets[0].methods[1].name, "lv_btn_toggle");
    assert_eq!(widgets[0].methods[2].name, "lv_btn_set_width");
}

#[test]
fn rerun_on_identical_input_is_byte_identical() {
    let code = foreign_block(
        "pub fn lv_bar_create(parent: *mut lv_obj_t) -> *mut lv_obj_t;
         pub fn lv_bar_set_value(bar: *mut lv_obj_t, value: i32);",
    );
    let first: Vec<String> = CodeGen::from(code.as_str())
        .unwrap()
        .get_widgets()
        .iter()
        .map(|w| w.code(&()).unwrap())
        .collect();
    let second: Vec<String> = CodeGen::from(code.as_str())
        .unwrap()
        .get_widgets()
        .iter()
        .map(|w| w.code(&()).unwrap())
        .collect();
    assert_eq!(first, second);
}

#[test]
fn unsupported_return_type_skips_only_that_method() {
    let good = LvFunc::new(
        "lv_label_get_recolor".to_string(),
        vec![LvArg::new(
            "label".to_string(),
            LvType::new("*mut lv_obj_t".to_string()),
        )],
        Some(LvType::new("bool".to_string())),
    );
    let bad = LvFunc::new(
        "lv_label_get_style".to_string(),
        vec![LvArg::new(
            "label".to_string(),
            LvType::new("*mut lv_obj_t".to_string()),
        )],
        Some(LvType::new("*mut lv_style_t".to_string())),
    );
    assert!(matches!(bad.code(&LvWidget {
        name: "label".to_string(),
        methods: vec![],
    }), Err(WrapperError::Skip)));

    let with_bad = LvWidget {
        name: "label".to_string(),
        methods: vec![good.clone(), bad],
    };
    let without_bad = LvWidget {
        name: "label".to_string(),
        methods: vec![good],
    };
    assert_eq!(
        with_bad.code(&()).unwrap(),
        without_bad.code(&()).unwrap()
    );
}

#[test]
fn unsupported_parameter_type_skips_the_method() {
    let f = LvFunc::new(
        "lv_btn_set_style".to_string(),
        vec![
            LvArg::new("btn".to_string(), LvType::new("*mut lv_obj_t".to_string())),
            LvArg::new(
                "style".to_string(),
                LvType::new("*mut lv_style_t".to_string()),
            ),
        ],
        None,
    );
    let w = LvWidget {
        name: "btn".to_string(),
        methods: vec![],
    };
    assert!(matches!(f.code(&w), Err(WrapperError::Skip)));
}

#[test]
fn keyword_argument_name_is_spelled_raw() {
    let f = LvFunc::new(
        "lv_btn_set_type".to_string(),
        vec![
            LvArg::new("btn".to_string(), LvType::new("*mut lv_obj_t".to_string())),
            LvArg::new("type".to_string(), LvType::new("u8".to_string())),
        ],
        None,
    );
    let w = LvWidget {
        name: "btn".to_string(),
        methods: vec![],
    };
    let code = f.code(&w).unwrap();
    let expected_code = "
        pub fn set_type(&mut self, r#type: u8) -> () {
            unsafe {
                lvgl_sys::lv_btn_set_type(self.core.raw().as_mut(), r#type);
            }
        }
    ";
    assert_eq!(tokens_of(code.as_str()), tokens_of(expected_code));
}

#[test]
fn const_receiver_becomes_immutable_self() {
    let f = LvFunc::new(
        "lv_btn_get_width".to_string(),
        vec![LvArg::new(
            "btn".to_string(),
            LvType::new("const lv_obj_t *".to_string()),
        )],
        Some(LvType::new("i16".to_string())),
    );
    let w = LvWidget {
        name: "btn".to_string(),
        methods: vec![],
    };
    let code = f.code(&w).unwrap();
    let expected_code = "
        pub fn get_width(&self) -> i16 {
            unsafe {
                lvgl_sys::lv_btn_get_width(self.core.raw().as_mut())
            }
        }
    ";
    assert_eq!(tokens_of(code.as_str()), tokens_of(expected_code));
}

#[test]
fn type_table_is_closed() {
    let dummy = LvArg::new("x".to_string(), LvType::new("u16".to_string()));
    assert_eq!(
        LvType::new("u16".to_string()).code(&dummy).unwrap(),
        "u16".to_string()
    );
    assert_eq!(
        LvType::new("bool".to_string()).code(&dummy).unwrap(),
        "bool".to_string()
    );
    assert_eq!(
        LvType::new("* const cty :: c_char".to_string())
            .code(&dummy)
            .unwrap(),
        "&cstr_core::CStr".to_string()
    );
    assert!(matches!(
        LvType::new("u64".to_string()).code(&dummy),
        Err(WrapperError::Skip)
    ));
    assert!(matches!(
        LvType::new("* mut lv_obj_t".to_string()).code(&dummy),
        Err(WrapperError::Skip)
    ));
}

#[test]
fn string_argument_usage_takes_raw_pointer() {
    let text = LvArg::new(
        "text".to_string(),
        LvType::new("* const cty :: c_char".to_string()),
    );
    assert_eq!(text.get_value_usage(), "text.as_ptr()".to_string());
    assert_eq!(text.get_processing(), "".to_string());
    assert_eq!(text.get_name_ident(), "text".to_string());

    let scalar = LvArg::new("value".to_string(), LvType::new("u16".to_string()));
    assert_eq!(scalar.get_value_usage(), "value".to_string());
    assert!(scalar.get_type().is_const() == false);
}

#[test]
fn discovered_widget_may_have_zero_methods() {
    // The creation declaration's one parameter is not an object handle, so
    // nothing qualifies as a method; the widget is still discovered.
    let code = foreign_block("pub fn lv_spinner_create(parent: abc) -> *mut lv_obj_t;");
    let cg = CodeGen::from(code.as_str()).unwrap();
    let widgets = cg.get_widgets();
    assert_eq!(widgets.len(), 1);
    assert_eq!(widgets[0].name, "spinner");
    assert_eq!(widgets[0].methods.len(), 0);
}

#[test]
fn duplicate_create_declarations_define_one_widget() {
    let code = foreign_block(
        "pub fn lv_btn_create(parent: *mut lv_obj_t) -> *mut lv_obj_t;
         pub fn lv_btn_create(parent: *mut lv_obj_t) -> *mut lv_obj_t;",
    );
    let cg = CodeGen::from(code.as_str()).unwrap();
    assert_eq!(cg.get_widgets().len(), 1);
}
