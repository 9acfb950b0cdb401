use lvgl_codegen::{CodeGen, LvArg, LvFunc, LvType, LvWidget, Rusty};

/// Normalizes a piece of source text to its token spelling, so two
/// token-identical fragments compare equal whatever their whitespace.
fn tokens_of(code: &str) -> String {
    code.parse::<proc_macro2::TokenStream>().unwrap().to_string()
}

/// A foreign block around the given declarations.
fn foreign_block(decls: &str) -> String {
    format!("ext{}n \"C\" {{ {} }}", "er", decls)
}

#[test]
fn can_load_bindgen_fns() {
    let bindgen_code = foreign_block(
        "#[doc = \" Return with the screen of an object\"]
         #[doc = \" @param obj pointer to an object\"]
         #[doc = \" @return pointer to a screen\"]
         pub fn lv_obj_get_screen(obj: *const lv_obj_t) -> *mut lv_obj_t;",
    );

    let cg = CodeGen::load_func_defs(bindgen_code.as_str()).unwrap();

    let ffn = cg.get(0).unwrap();
    assert_eq!(ffn.name, "lv_obj_get_screen");
    assert_eq!(ffn.args[0].name, "obj");
}

#[test]
fn can_identify_widgets_from_function_names() {
    let funcs = vec![
        LvFunc::new(
            "lv_obj_create".to_string(),
            vec![LvArg::new(
                "parent".to_string(),
                LvType::new("abc".to_string()),
            )],
            None,
        ),
        LvFunc::new(
            "lv_btn_create".to_string(),
            vec![LvArg::new(
                "parent".to_string(),
                LvType::new("abc".to_string()),
            )],
            None,
        ),
        LvFunc::new(
            "lv_do_something".to_string(),
            vec![LvArg::new(
                "parent".to_string(),
                LvType::new("abc".to_string()),
            )],
            None,
        ),
        LvFunc::new(
            "lv_invalid_create".to_string(),
            vec![
                LvArg::new("parent".to_string(), LvType::new("abc".to_string())),
                LvArg::new("copy_from".to_string(), LvType::new("bcf".to_string())),
            ],
            None,
        ),
        LvFunc::new(
            "lv_cb_create".to_string(),
            vec![LvArg::new(
                "parent".to_string(),
                LvType::new("abc".to_string()),
            )],
            None,
        ),
    ];

    let widget_names = CodeGen::get_widget_names(&funcs);

    assert_eq!(widget_names.len(), 3);
}

#[test]
fn generate_method_wrapper() {
    // pub fn lv_arc_set_bg_end_angle(arc: *mut lv_obj_t, end: u16);
    let arc_set_bg_end_angle = LvFunc::new(
        "lv_arc_set_bg_end_angle".to_string(),
        vec![
            LvArg::new("arc".to_string(), LvType::new("*mut lv_obj_t".to_string())),
            LvArg::new("end".to_string(), LvType::new("u16".to_string())),
        ],
        None,
    );
    let arc_widget = LvWidget {
        name: "arc".to_string(),
        methods: vec![],
    };

    let code = arc_set_bg_end_angle.code(&arc_widget).unwrap();
    let expected_code = "
        pub fn set_bg_end_angle(&mut self, end: u16) -> () {
            unsafe {
                lvgl_sys::lv_arc_set_bg_end_angle(self.core.raw().as_mut(), end);
            }
        }
    ";

    assert_eq!(tokens_of(code.as_str()), tokens_of(expected_code));
}

#[test]
fn generate_method_wrapper_for_str_types_as_argument() {
    let bindgen_code = foreign_block(
        "#[doc = \" @param label pointer to a label object\"]
         pub fn lv_label_set_text(label: *mut lv_obj_t, text: *const cty::c_char);",
    );
    let cg = CodeGen::load_func_defs(bindgen_code.as_str()).unwrap();

    let label_set_text = cg.get(0).unwrap().clone();
    let parent_widget = LvWidget {
        name: "label".to_string(),
        methods: vec![],
    };

    let code = label_set_text.code(&parent_widget).unwrap();
    let expected_code = "
        pub fn set_text(&mut self, text: &cstr_core::CStr) -> () {
            unsafe {
                lvgl_sys::lv_label_set_text(
                    self.core.raw().as_mut(),
                    text.as_ptr()
                );
            }
        }
    ";

    assert_eq!(tokens_of(code.as_str()), tokens_of(expected_code));
}

#[test]
fn generate_method_wrapper_for_void_return() {
    let bindgen_code = foreign_block(
        "#[doc = \" @param label pointer to a label object\"]
         pub fn lv_label_set_text(label: *mut lv_obj_t, text: *const cty::c_char);",
    );
    let cg = CodeGen::load_func_defs(bindgen_code.as_str()).unwrap();

    let label_set_text = cg.get(0).unwrap().clone();
    let parent_widget = LvWidget {
        name: "label".to_string(),
        methods: vec![],
    };

    let code = label_set_text.code(&parent_widget).unwrap();
    let expected_code = "
        pub fn set_text(&mut self, text: &cstr_core::CStr) -> () {
            unsafe {
                lvgl_sys::lv_label_set_text(
                    self.core.raw().as_mut(),
                    text.as_ptr()
                );
            }
        }
    ";

    assert_eq!(tokens_of(code.as_str()), tokens_of(expected_code));
}

#[test]
fn generate_method_wrapper_for_boolean_return() {
    let bindgen_code = foreign_block("pub fn lv_label_get_recolor(label: *mut lv_obj_t) -> bool;");
    let cg = CodeGen::load_func_defs(bindgen_code.as_str()).unwrap();

    let label_get_recolor = cg.get(0).unwrap().clone();
    let parent_widget = LvWidget {
        name: "label".to_string(),
        methods: vec![],
    };

    let code = label_get_recolor.code(&parent_widget).unwrap();
    let expected_code = "
        pub fn get_recolor(&mut self) -> bool {
            unsafe {
                lvgl_sys::lv_label_get_recolor(
                    self.core.raw().as_mut()
                )
            }
        }
    ";

    assert_eq!(tokens_of(code.as_str()), tokens_of(expected_code));
}

#[test]
fn generate_method_wrapper_for_uint32_return() {
    let bindgen_code =
        foreign_block("pub fn lv_label_get_text_selection_start(label: *mut lv_obj_t) -> u32;");
    let cg = CodeGen::load_func_defs(bindgen_code.as_str()).unwrap();

    let label_get_text_selection_start = cg.get(0).unwrap().clone();
    let parent_widget = LvWidget {
        name: "label".to_string(),
        methods: vec![],
    };

    let code = label_get_text_selection_start.code(&parent_widget).unwrap();
    let expected_code = "
        pub fn get_text_selection_start(&mut self) -> u32 {
            unsafe {
                lvgl_sys::lv_label_get_text_selection_start(
                    self.core.raw().as_mut()
                )
            }
        }
    ";

    assert_eq!(tokens_of(code.as_str()), tokens_of(expected_code));
}

#[test]
fn generate_basic_widget_code() {
    let arc_widget = LvWidget {
        name: "arc".to_string(),
        methods: vec![],
    };

    let code = arc_widget.code(&()).unwrap();
    let expected_code = "
        define_object!(Arc);

        impl<'a> Arc<'a> {

        }
    ";

    assert_eq!(tokens_of(code.as_str()), tokens_of(expected_code));
}

#[test]
fn generate_widget_with_constructor_code() {
    // pub fn lv_arc_create(par: *mut lv_obj_t, copy: *const lv_obj_t) -> *mut lv_obj_t;
    let arc_create = LvFunc::new(
        "lv_arc_create".to_string(),
        vec![
            LvArg::new("par".to_string(), LvType::new("*mut lv_obj_t".to_string())),
            LvArg::new(
                "copy".to_string(),
                LvType::new("*const lv_obj_t".to_string()),
            ),
        ],
        Some(LvType::new("*mut lv_obj_t".to_string())),
    );

    let arc_widget = LvWidget {
        name: "arc".to_string(),
        methods: vec![arc_create],
    };

    let code = arc_widget.code(&()).unwrap();
    let expected_code = "
        define_object!(Arc);

        impl<'a> Arc<'a> {
            pub fn create(parent: &mut impl crate::NativeObject) -> crate::LvResult<Self> {
                unsafe {
                    let ptr = lvgl_sys::lv_arc_create(
                        parent.raw().as_mut(),
                    );
                    if let Some(raw) = core::ptr::NonNull::new(ptr) {
                        let core = <crate::Obj as crate::Widget>::from_raw(raw).unwrap();
                        Ok(Self { core })
                    } else {
                        Err(crate::LvError::InvalidReference)
                    }
                }
            }

            pub fn new() -> crate::LvResult<Self> {
                let mut parent = crate::display::get_scr_act()?;
                Self::create(&mut parent)
            }
        }
    ";

    assert_eq!(tokens_of(code.as_str()), tokens_of(expected_code));
}
