//! End-to-end tests of the component transpiler: the full scenario, each
//! rewrite rule, the recognizers and the degradation policy.

use maya::ast::Attr;
use maya::ast::AttrValue;
use maya::ast::Declaration;
use maya::ast::Element;
use maya::ast::Expr;
use maya::ast::FnDef;
use maya::ast::MarkupNode;
use maya::ast::Pat;
use maya::ast::Stmt;
use maya::ast::SyntaxTree;
use maya::transpile;

fn s(x: &str) -> String {
    x.to_string()
}

fn counter_tree() -> SyntaxTree {
    let markup = MarkupNode::Element(Element {
        tag: s("button"),
        attrs: vec![
            Attr { name: s("className"), value: AttrValue::Text(s("btn")) },
            Attr { name: s("onClick"), value: AttrValue::ExprBinding(s("increment")) },
        ],
        children: vec![
            MarkupNode::TextInterpolation(s("label")),
            MarkupNode::RawText(s(": ")),
            MarkupNode::TextInterpolation(s("count")),
        ],
    });
    let body = vec![
        Stmt::VarDecl {
            pat: Pat::ArrayPat(vec![s("count"), s("setCount")]),
            init: Some(Expr::Call { callee: s("useState"), args: vec![Expr::Raw(s("0"))] }),
        },
        Stmt::VarDecl {
            pat: Pat::Ident(s("increment")),
            init: Some(Expr::Arrow { params: vec![], body: s("{ setCount(count + 1) }") }),
        },
        Stmt::Return(Some(Expr::Markup(markup))),
    ];
    SyntaxTree {
        decls: vec![Declaration::ExportedFn(FnDef {
            name: s("Counter"),
            params: vec![Pat::ObjectPat(vec![s("label")])],
            body,
        })],
    }
}

#[test]
fn counter_scenario_template_and_script() {
    let out = transpile(&counter_tree());
    assert!(out.contains(
        "<button class=\"btn\" @click=\"increment\">{{ label }}: {{ count }}</button>"
    ));
    assert!(out.contains("props: { label: {} }"));
    assert!(out.contains("data(){ return { count: 0 }; }"));
    assert!(out.contains("methods: { increment: function() { setCount(count + 1) } }"));
}

#[test]
fn counter_scenario_exact_output() {
    let out = transpile(&counter_tree());
    let expected = "<template>\n\
        <button class=\"btn\" @click=\"increment\">{{ label }}: {{ count }}</button>\n\
        </template>\n\
        \n\
        <script>\n\
        export default {\n  \
        name: \"Counter\",\n  \
        props: { label: {} },\n  \
        data(){ return { count: 0 }; },\n  \
        methods: { increment: function() { setCount(count + 1) } },\n\
        };\n\
        </script>\n\
        \n\
        <style>\n\
        </style>\n";
    assert_eq!(out, expected);
}

#[test]
fn transpiling_twice_is_byte_identical() {
    let first = transpile(&counter_tree());
    let second = transpile(&counter_tree());
    assert_eq!(first, second);
}

#[test]
fn classname_attribute_is_rewritten() {
    let tree = SyntaxTree {
        decls: vec![Declaration::ExportedFn(FnDef {
            name: s("Box"),
            params: vec![],
            body: vec![Stmt::Return(Some(Expr::Markup(MarkupNode::Element(Element {
                tag: s("div"),
                attrs: vec![Attr { name: s("className"), value: AttrValue::Text(s("x")) }],
                children: vec![],
            }))))],
        })],
    };
    let out = transpile(&tree);
    assert!(out.contains("class=\"x\""));
    assert!(!out.contains("className="));
}

#[test]
fn event_binding_is_rewritten_to_directive() {
    let tree = SyntaxTree {
        decls: vec![Declaration::ExportedFn(FnDef {
            name: s("Clicker"),
            params: vec![],
            body: vec![Stmt::Return(Some(Expr::Markup(MarkupNode::Element(Element {
                tag: s("a"),
                attrs: vec![
                    Attr { name: s("onClick"), value: AttrValue::ExprBinding(s("handleClick")) },
                    Attr { name: s("onMouseOver"), value: AttrValue::ExprBinding(s("hover")) },
                ],
                children: vec![],
            }))))],
        })],
    };
    let out = transpile(&tree);
    assert!(out.contains("@click=\"handleClick\""));
    assert!(out.contains("@mouseover=\"hover\""));
    assert!(!out.contains("onClick"));
}

#[test]
fn conditional_block_is_guarded_not_interpolated() {
    let tree = SyntaxTree {
        decls: vec![Declaration::ExportedFn(FnDef {
            name: s("Maybe"),
            params: vec![],
            body: vec![Stmt::Return(Some(Expr::Markup(MarkupNode::Element(Element {
                tag: s("div"),
                attrs: vec![],
                children: vec![MarkupNode::ConditionalBlock {
                    cond: s("isVisible"),
                    then: Element {
                        tag: s("span"),
                        attrs: vec![],
                        children: vec![MarkupNode::RawText(s("hi"))],
                    },
                }],
            }))))],
        })],
    };
    let out = transpile(&tree);
    assert!(out.contains("<span conditional-attribute=\"isVisible\">hi</span>"));
    assert!(!out.contains("{{ isVisible"));
}

#[test]
fn state_round_trip_and_no_standalone_setter() {
    let tree = SyntaxTree {
        decls: vec![Declaration::ExportedFn(FnDef {
            name: s("Counter"),
            params: vec![],
            body: vec![
                Stmt::VarDecl {
                    pat: Pat::ArrayPat(vec![s("count"), s("setCount")]),
                    init: Some(Expr::Call {
                        callee: s("useState"),
                        args: vec![Expr::Raw(s("0"))],
                    }),
                },
                // a closure bound to the setter's own name is presumed to be
                // the hook-provided setter and must not become a method
                Stmt::VarDecl {
                    pat: Pat::Ident(s("setCount")),
                    init: Some(Expr::Arrow { params: vec![s("v")], body: s("{ v }") }),
                },
            ],
        })],
    };
    let out = transpile(&tree);
    assert!(out.contains("data(){ return { count: 0 }; }"));
    assert!(!out.contains("setCount: function"));
    assert!(!out.contains("methods:"));
}

#[test]
fn no_exported_function_degrades_to_minimal_file() {
    let tree = SyntaxTree {
        decls: vec![
            Declaration::Other,
            Declaration::LocalFn(FnDef { name: s("Counter"), params: vec![], body: vec![] }),
        ],
    };
    let out = transpile(&tree);
    let expected = "<template>\n\
        </template>\n\
        \n\
        <script>\n\
        export default {\n  \
        name: \"Component\",\n\
        };\n\
        </script>\n\
        \n\
        <style>\n\
        </style>\n";
    assert_eq!(out, expected);
}

#[test]
fn first_exported_function_wins() {
    let tree = SyntaxTree {
        decls: vec![
            Declaration::ExportedFn(FnDef { name: s("First"), params: vec![], body: vec![] }),
            Declaration::ExportedFn(FnDef { name: s("Second"), params: vec![], body: vec![] }),
        ],
    };
    let out = transpile(&tree);
    assert!(out.contains("name: \"First\""));
    assert!(!out.contains("Second"));
}

#[test]
fn anonymous_component_falls_back_to_default_name() {
    let tree = SyntaxTree {
        decls: vec![Declaration::ExportedFn(FnDef { name: s(""), params: vec![], body: vec![] })],
    };
    let out = transpile(&tree);
    assert!(out.contains("name: \"Component\""));
}

#[test]
fn nested_call_strategy_finds_markup() {
    let tree = SyntaxTree {
        decls: vec![Declaration::ExportedFn(FnDef {
            name: s("App"),
            params: vec![],
            body: vec![Stmt::ExprStmt(Expr::Call {
                callee: s("render"),
                args: vec![
                    Expr::Ident(s("root")),
                    Expr::Markup(MarkupNode::Element(Element {
                        tag: s("main"),
                        attrs: vec![],
                        children: vec![],
                    })),
                ],
            })],
        })],
    };
    let out = transpile(&tree);
    assert!(out.contains("<main></main>"));
}

#[test]
fn props_from_body_binding_when_no_object_parameter() {
    let tree = SyntaxTree {
        decls: vec![Declaration::ExportedFn(FnDef {
            name: s("Card"),
            params: vec![Pat::Ident(s("props"))],
            body: vec![Stmt::VarDecl {
                pat: Pat::ObjectPat(vec![s("title"), s("body")]),
                init: Some(Expr::Ident(s("props"))),
            }],
        })],
    };
    let out = transpile(&tree);
    assert!(out.contains("props: { title: {}, body: {} }"));
}

#[test]
fn object_parameter_takes_precedence_over_body_binding() {
    let tree = SyntaxTree {
        decls: vec![Declaration::ExportedFn(FnDef {
            name: s("Card"),
            params: vec![Pat::ObjectPat(vec![s("title")])],
            body: vec![Stmt::VarDecl {
                pat: Pat::ObjectPat(vec![s("ignored")]),
                init: Some(Expr::Ident(s("props"))),
            }],
        })],
    };
    let out = transpile(&tree);
    assert!(out.contains("props: { title: {} }"));
    assert!(!out.contains("ignored"));
}

#[test]
fn repeated_prop_names_collapse() {
    let tree = SyntaxTree {
        decls: vec![Declaration::ExportedFn(FnDef {
            name: s("Card"),
            params: vec![Pat::ObjectPat(vec![s("a"), s("a"), s("b")])],
            body: vec![],
        })],
    };
    let out = transpile(&tree);
    assert!(out.contains("props: { a: {}, b: {} }"));
}

#[test]
fn state_initializer_keeps_call_expression_text() {
    let tree = SyntaxTree {
        decls: vec![Declaration::ExportedFn(FnDef {
            name: s("Timer"),
            params: vec![],
            body: vec![Stmt::VarDecl {
                pat: Pat::ArrayPat(vec![s("time"), s("setTime")]),
                init: Some(Expr::Call {
                    callee: s("useState"),
                    args: vec![Expr::Call { callee: s("now"), args: vec![Expr::Ident(s("tz"))] }],
                }),
            }],
        })],
    };
    let out = transpile(&tree);
    assert!(out.contains("data(){ return { time: now(tz) }; }"));
}

#[test]
fn setter_match_is_case_insensitive() {
    let tree = SyntaxTree {
        decls: vec![Declaration::ExportedFn(FnDef {
            name: s("Flag"),
            params: vec![],
            body: vec![Stmt::VarDecl {
                pat: Pat::ArrayPat(vec![s("isOpen"), s("setIsOpen")]),
                init: Some(Expr::Call { callee: s("useState"), args: vec![Expr::Raw(s("false"))] }),
            }],
        })],
    };
    let out = transpile(&tree);
    assert!(out.contains("data(){ return { isOpen: false }; }"));
}

#[test]
fn mismatched_destructure_is_not_state() {
    let tree = SyntaxTree {
        decls: vec![Declaration::ExportedFn(FnDef {
            name: s("Odd"),
            params: vec![],
            body: vec![Stmt::VarDecl {
                pat: Pat::ArrayPat(vec![s("count"), s("updateCount")]),
                init: Some(Expr::Call { callee: s("useState"), args: vec![Expr::Raw(s("0"))] }),
            }],
        })],
    };
    let out = transpile(&tree);
    assert!(!out.contains("data()"));
}

#[test]
fn fragment_renders_as_bare_brackets() {
    let tree = SyntaxTree {
        decls: vec![Declaration::ExportedFn(FnDef {
            name: s("Frag"),
            params: vec![],
            body: vec![Stmt::Return(Some(Expr::Markup(MarkupNode::Element(Element {
                tag: s(""),
                attrs: vec![],
                children: vec![MarkupNode::RawText(s("text"))],
            }))))],
        })],
    };
    let out = transpile(&tree);
    assert!(out.contains("<>text</>"));
}

#[test]
fn rules_compose_inside_a_conditional_element() {
    let tree = SyntaxTree {
        decls: vec![Declaration::ExportedFn(FnDef {
            name: s("Panel"),
            params: vec![],
            body: vec![Stmt::Return(Some(Expr::Markup(MarkupNode::Element(Element {
                tag: s("div"),
                attrs: vec![],
                children: vec![MarkupNode::ConditionalBlock {
                    cond: s("open"),
                    then: Element {
                        tag: s("section"),
                        attrs: vec![
                            Attr { name: s("className"), value: AttrValue::Text(s("panel")) },
                            Attr { name: s("onClose"), value: AttrValue::ExprBinding(s("hide")) },
                        ],
                        children: vec![],
                    },
                }],
            }))))],
        })],
    };
    let out = transpile(&tree);
    assert!(out.contains(
        "<section class=\"panel\" @close=\"hide\" conditional-attribute=\"open\"></section>"
    ));
}

#[test]
fn lowercase_on_prefix_is_not_an_event() {
    let tree = SyntaxTree {
        decls: vec![Declaration::ExportedFn(FnDef {
            name: s("Legacy"),
            params: vec![],
            body: vec![Stmt::Return(Some(Expr::Markup(MarkupNode::Element(Element {
                tag: s("a"),
                attrs: vec![
                    Attr { name: s("onclick"), value: AttrValue::ExprBinding(s("go")) },
                    Attr { name: s("once"), value: AttrValue::Text(s("yes")) },
                    Attr { name: s("onClick"), value: AttrValue::Text(s("literal")) },
                ],
                children: vec![],
            }))))],
        })],
    };
    let out = transpile(&tree);
    // no capitalized event name, or no expression binding: rule 2 must not fire
    assert!(out.contains("onclick={go}"));
    assert!(out.contains("once=\"yes\""));
    assert!(out.contains("onClick=\"literal\""));
}

#[test]
fn state_entries_keep_discovery_order() {
    let tree = SyntaxTree {
        decls: vec![Declaration::ExportedFn(FnDef {
            name: s("Pair"),
            params: vec![],
            body: vec![
                Stmt::VarDecl {
                    pat: Pat::ArrayPat(vec![s("b"), s("setB")]),
                    init: Some(Expr::Call { callee: s("useState"), args: vec![Expr::Raw(s("2"))] }),
                },
                Stmt::VarDecl {
                    pat: Pat::ArrayPat(vec![s("a"), s("setA")]),
                    init: Some(Expr::Call { callee: s("useState"), args: vec![Expr::Raw(s("1"))] }),
                },
            ],
        })],
    };
    let out = transpile(&tree);
    assert!(out.contains("data(){ return { b: 2, a: 1 }; }"));
}

#[test]
fn non_event_expression_binding_passes_through() {
    let tree = SyntaxTree {
        decls: vec![Declaration::ExportedFn(FnDef {
            name: s("Input"),
            params: vec![],
            body: vec![Stmt::Return(Some(Expr::Markup(MarkupNode::Element(Element {
                tag: s("input"),
                attrs: vec![
                    Attr { name: s("value"), value: AttrValue::ExprBinding(s("text")) },
                    Attr { name: s("disabled"), value: AttrValue::Bare },
                ],
                children: vec![],
            }))))],
        })],
    };
    let out = transpile(&tree);
    assert!(out.contains("value={text}"));
    assert!(out.contains(" disabled>"));
}
