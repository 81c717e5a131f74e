use coroutine_system::compile::CompileError;
use coroutine_system::compile::ParamPattern;
use coroutine_system::compile::ProcDecl;
use coroutine_system::compile::ProcParam;
use coroutine_system::compile::ReturnKind;
use coroutine_system::compile::coroutine_system;
use coroutine_system::lang::MStmt;
use coroutine_system::lang::SrcStmt;
use coroutine_system::params::HostParam;
use coroutine_system::params::Lifetime;
use coroutine_system::params::ParamType;
use coroutine_system::params::PathSegment;

fn query_param() -> ProcParam {
    ProcParam::Typed {
        pat: ParamPattern::Ident,
        ty: ParamType::Path {
            segments: vec![PathSegment {
                kind: HostParam::Query,
                bracketed: true,
                lifetimes: vec![],
                args: vec![ParamType::Opaque],
            }],
        },
    }
}

fn decl(name: &str, params: Vec<ProcParam>) -> ProcDecl {
    ProcDecl {
        namespace: String::from("demo"),
        name: String::from(name),
        ret: ReturnKind::Unit,
        params,
        body: vec![SrcStmt::Run { action: 1 }],
    }
}

#[test]
fn non_unit_return_is_rejected() {
    let mut d = decl("walk", vec![]);
    d.ret = ReturnKind::Other;
    assert_eq!(coroutine_system(&d), Err(CompileError::NonUnitReturn));
}

#[test]
fn receiver_parameter_is_rejected() {
    let d = decl("walk", vec![ProcParam::Receiver]);
    assert_eq!(coroutine_system(&d), Err(CompileError::ReceiverParam));
}

#[test]
fn non_simple_pattern_is_rejected() {
    let d = decl(
        "walk",
        vec![ProcParam::Typed { pat: ParamPattern::Other, ty: ParamType::Opaque }],
    );
    assert_eq!(coroutine_system(&d), Err(CompileError::NonSimplePattern));
}

#[test]
fn first_offending_parameter_decides_the_error() {
    let d = decl(
        "walk",
        vec![
            query_param(),
            ProcParam::Typed { pat: ParamPattern::Other, ty: ParamType::Opaque },
            ProcParam::Receiver,
        ],
    );
    assert_eq!(coroutine_system(&d), Err(CompileError::NonSimplePattern));
}

#[test]
fn identity_is_namespace_and_name() {
    let cs = coroutine_system(&decl("walk", vec![])).unwrap();
    assert_eq!(cs.identity, String::from("demo::walk"));
}

#[test]
fn params_struct_name_is_camel_cased() {
    let cs = coroutine_system(&decl("my_multi_word_system", vec![])).unwrap();
    assert_eq!(cs.params_struct_name, String::from("MyMultiWordSystemParams"));
}

#[test]
fn query_parameter_needs_both_lifetimes() {
    let cs = coroutine_system(&decl("walk", vec![query_param()])).unwrap();
    assert!(cs.lifetime_req.needs_w);
    assert!(cs.lifetime_req.needs_s);
}

#[test]
fn no_parameters_need_no_lifetimes() {
    let cs = coroutine_system(&decl("walk", vec![])).unwrap();
    assert!(!cs.lifetime_req.needs_w);
    assert!(!cs.lifetime_req.needs_s);
}

#[test]
fn well_known_parameter_gains_its_lifetimes() {
    let d = decl(
        "walk",
        vec![ProcParam::Typed {
            pat: ParamPattern::Ident,
            ty: ParamType::Path {
                segments: vec![PathSegment {
                    kind: HostParam::Res,
                    bracketed: false,
                    lifetimes: vec![],
                    args: vec![],
                }],
            },
        }],
    );
    let cs = coroutine_system(&d).unwrap();
    assert_eq!(cs.param_types.len(), 1);
    assert_eq!(
        cs.param_types[0],
        ParamType::Path {
            segments: vec![PathSegment {
                kind: HostParam::Res,
                bracketed: true,
                lifetimes: vec![Lifetime::World],
                args: vec![],
            }],
        }
    );
}

#[test]
fn bare_reference_defaults_to_the_static_lifetime() {
    let d = decl(
        "walk",
        vec![ProcParam::Typed {
            pat: ParamPattern::Ident,
            ty: ParamType::Reference {
                lifetime: None,
                mutable: true,
                elem: Box::new(ParamType::Opaque),
            },
        }],
    );
    let cs = coroutine_system(&d).unwrap();
    assert_eq!(
        cs.param_types[0],
        ParamType::Reference {
            lifetime: Some(Lifetime::Static),
            mutable: true,
            elem: Box::new(ParamType::Opaque),
        }
    );
}

#[test]
fn compiled_body_is_the_lowered_body() {
    let cs = coroutine_system(&decl("walk", vec![])).unwrap();
    assert_eq!(cs.body, vec![MStmt::BindViews, MStmt::Run { action: 1 }]);
}

#[test]
fn camel_case_drops_every_underscore() {
    let cs = coroutine_system(&decl("_x__y", vec![])).unwrap();
    assert_eq!(cs.params_struct_name, String::from("XYParams"));
}
