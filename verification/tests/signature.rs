use raylib_plain::api::{AliasRef, ApiDescription, CallbackRef, Function, Param, StructRef};
use raylib_plain::signature::{
    generate_arg, generate_call_args, generate_function, generate_function_body, generate_header,
    generate_signature, is_variadic_param, GeneratedSignature,
};

fn param(name: &str, c_type: &str) -> Param {
    Param { name: name.to_string(), c_type: c_type.to_string() }
}

fn function(name: &str, return_type: &str, params: Option<Vec<Param>>) -> Function {
    Function {
        name: name.to_string(),
        description: format!("About {}", name),
        return_type: return_type.to_string(),
        params,
    }
}

fn arity(list: &str) -> usize {
    if list.is_empty() {
        0
    } else {
        list.split(", ").count()
    }
}

#[test]
fn absent_and_empty_parameter_lists_render_alike() {
    assert_eq!(generate_arg(&None), "");
    assert_eq!(generate_arg(&Some(vec![])), "");
    assert_eq!(generate_call_args(&None), "");
    assert_eq!(generate_call_args(&Some(vec![])), "");
}

#[test]
fn parameters_are_named_and_typed() {
    let params = Some(vec![
        param("width", "int"),
        param("height", "int"),
        param("title", "const char *"),
    ]);
    assert_eq!(generate_arg(&params), "width:c_int, height:c_int, title:*const c_char");
    assert_eq!(generate_call_args(&params), "width, height, title");
}

#[test]
fn parameter_names_go_to_snake_case() {
    let params = Some(vec![param("fileName", "const char *"), param("fontSize", "int")]);
    assert_eq!(generate_arg(&params), "file_name:*const c_char, font_size:c_int");
    assert_eq!(generate_call_args(&params), "file_name, font_size");
}

#[test]
fn trailing_variadic_marker_is_dropped_from_both() {
    let with = Some(vec![
        param("logLevel", "int"),
        param("text", "const char *"),
        param("args", "..."),
    ]);
    let without = Some(vec![param("logLevel", "int"), param("text", "const char *")]);
    assert_eq!(generate_arg(&with), "log_level:c_int, text:*const c_char");
    assert_eq!(generate_call_args(&with), "log_level, text");
    assert_eq!(generate_arg(&with), generate_arg(&without));
    assert_eq!(generate_call_args(&with), generate_call_args(&without));
    assert_eq!(arity(&generate_arg(&with)), 2);
    assert_eq!(arity(&generate_call_args(&with)), 2);
}

#[test]
fn variadic_marker_alone_leaves_an_empty_list() {
    let params = Some(vec![param("args", "...")]);
    assert_eq!(generate_arg(&params), "");
    assert_eq!(generate_call_args(&params), "");
}

#[test]
fn only_the_exact_pair_is_the_variadic_marker() {
    assert!(is_variadic_param(&param("args", "...")));
    assert!(!is_variadic_param(&param("args", "int")));
    assert!(!is_variadic_param(&param("rest", "...")));
    assert_eq!(generate_arg(&Some(vec![param("args", "int")])), "args:c_int");
    assert_eq!(generate_arg(&Some(vec![param("rest", "...")])), "rest:...");
}

#[test]
fn box_and_type_are_renamed_in_signature_and_call() {
    let params = Some(vec![param("box", "BoundingBox"), param("type", "int")]);
    assert_eq!(generate_arg(&params), "box_:BoundingBox, type_:c_int");
    assert_eq!(generate_call_args(&params), "box_, type_");
    let f = function("DrawBoundingBox", "void", params);
    assert_eq!(generate_function_body(&f, ""), "unsafe { rl::DrawBoundingBox(box_, type_) };");
}

#[test]
fn body_of_a_void_function_has_no_return() {
    let f = function("CloseWindow", "void", None);
    assert_eq!(generate_function_body(&f, ""), "unsafe { rl::CloseWindow() };");
    let g = generate_signature(&f);
    assert_eq!(g.return_type, "");
    assert_eq!(g.body, "unsafe { rl::CloseWindow() };");
}

#[test]
fn body_of_any_other_function_returns_the_call() {
    let f = function("GetScreenWidth", "int", None);
    assert_eq!(
        generate_function_body(&f, " -> c_int"),
        "return unsafe { rl::GetScreenWidth() };"
    );
    let g = generate_signature(&f);
    assert_eq!(g.return_type, " -> c_int");
    assert_eq!(g.body, "return unsafe { rl::GetScreenWidth() };");
}

#[test]
fn the_call_keeps_the_c_name() {
    let f = function("IsKeyDown", "bool", Some(vec![param("key", "int")]));
    let g = generate_signature(&f);
    assert_eq!(g.name, "is_key_down");
    assert_eq!(g.body, "return unsafe { rl::IsKeyDown(key) };");
}

#[test]
fn signature_of_a_function_with_parameters() {
    let f = Function {
        name: "InitWindow".to_string(),
        description: "Initialize window and OpenGL context".to_string(),
        return_type: "void".to_string(),
        params: Some(vec![
            param("width", "int"),
            param("height", "int"),
            param("title", "const char *"),
        ]),
    };
    let g = generate_signature(&f);
    assert_eq!(
        g,
        GeneratedSignature {
            comment: "/** Initialize window and OpenGL context */\n".to_string(),
            name: "init_window".to_string(),
            params: "width:c_int, height:c_int, title:*const c_char".to_string(),
            return_type: String::new(),
            body: "unsafe { rl::InitWindow(width, height, title) };".to_string(),
        }
    );
    assert_eq!(
        g.render(),
        "/** Initialize window and OpenGL context */\n\
         pub fn init_window(width:c_int, height:c_int, title:*const c_char) \
         { unsafe { rl::InitWindow(width, height, title) }; }\n\n"
    );
}

#[test]
fn signature_of_a_variadic_function() {
    let f = Function {
        name: "TextFormat".to_string(),
        description: "Text formatting with variables".to_string(),
        return_type: "const char *".to_string(),
        params: Some(vec![param("text", "const char *"), param("args", "...")]),
    };
    assert_eq!(
        generate_signature(&f).render(),
        "/** Text formatting with variables */\n\
         pub fn text_format(text:*const c_char) -> *const c_char \
         { return unsafe { rl::TextFormat(text) }; }\n\n"
    );
}

#[test]
fn header_lists_imports_and_names_in_order() {
    let api = ApiDescription {
        defines: vec![],
        functions: vec![],
        structs: vec![
            StructRef { name: "Vector2".to_string() },
            StructRef { name: "Color".to_string() },
        ],
        aliases: vec![AliasRef { name: "Quaternion".to_string() }],
        callbacks: vec![CallbackRef { name: "TraceLogCallback".to_string() }],
    };
    assert_eq!(
        generate_header(&api),
        vec![
            "use raylib_rs_plain_sys as rl;",
            "use ::std::os::raw::c_int;",
            "use ::std::os::raw::c_uint;",
            "use ::std::os::raw::c_long;",
            "use ::std::os::raw::c_void;",
            "use ::std::os::raw::c_uchar;",
            "use ::std::os::raw::c_char;",
            "\n",
            "pub use rl::Vector2;",
            "pub use rl::Color;",
            "pub use rl::Quaternion;",
            "pub use rl::TraceLogCallback;",
            "\n",
        ]
    );
}

#[test]
fn header_of_an_empty_description() {
    let api = ApiDescription {
        defines: vec![],
        functions: vec![],
        structs: vec![],
        aliases: vec![],
        callbacks: vec![],
    };
    assert_eq!(generate_header(&api).len(), 9);
}

fn small_api() -> ApiDescription {
    ApiDescription {
        defines: vec![],
        functions: vec![
            Function {
                name: "InitWindow".to_string(),
                description: "Initialize window".to_string(),
                return_type: "void".to_string(),
                params: Some(vec![param("width", "int"), param("title", "const char *")]),
            },
            Function {
                name: "WindowShouldClose".to_string(),
                description: "Check if window should close".to_string(),
                return_type: "bool".to_string(),
                params: None,
            },
        ],
        structs: vec![StructRef { name: "Font".to_string() }],
        aliases: vec![],
        callbacks: vec![],
    }
}

#[test]
fn source_file_of_a_small_description() {
    let expected = "/* automatically generated by demo */\n\
        #![allow(clippy::not_unsafe_ptr_arg_deref, clippy::too_many_arguments)]\n\
        use raylib_rs_plain_sys as rl;\n\
        use ::std::os::raw::c_int;\n\
        use ::std::os::raw::c_uint;\n\
        use ::std::os::raw::c_long;\n\
        use ::std::os::raw::c_void;\n\
        use ::std::os::raw::c_uchar;\n\
        use ::std::os::raw::c_char;\n\
        \n\n\
        pub use rl::Font;\n\
        \n\
        /** Initialize window */\n\
        pub fn init_window(width:c_int, title:*const c_char) { unsafe { rl::InitWindow(width, title) }; }\n\
        \n\
        /** Check if window should close */\n\
        pub fn window_should_close() -> bool { return unsafe { rl::WindowShouldClose() }; }\n\
        \n";
    assert_eq!(generate_function(&small_api(), "demo"), expected);
}

#[test]
fn functions_come_out_in_the_order_of_the_description() {
    let text = generate_function(&small_api(), "demo");
    let first = text.find("pub fn init_window").unwrap();
    let second = text.find("pub fn window_should_close").unwrap();
    assert!(first < second);
}

#[test]
fn generating_twice_gives_the_same_text() {
    let api = small_api();
    assert_eq!(generate_function(&api, "demo"), generate_function(&api.clone(), "demo"));
}
