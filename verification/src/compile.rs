//! The top-level entry of the transformation engine: turns one declared
//! procedure into a schedulable system.
//!
//! The declaration is validated (a schedulable procedure returns nothing,
//! takes no receiver, and binds each parameter to a simple name), the
//! parameter types are analysed and rewritten for the host's lifetimes, the
//! body is lowered into its resumable form, and the procedure's stable
//! identity and the name of its generated parameter-bundle type are derived.

use vstd::prelude::*;

use crate::lang::MStmt;
use crate::lang::SrcStmt;
use crate::lang::m_views;
use crate::lang::src_views;
use crate::params::LifetimeRequirement;
use crate::params::ParamType;
use crate::params::ParamTypeV;
use crate::params::add_lifetimes_to_type;
use crate::params::analyze_lifetime_requirements;
use crate::params::ptype_views;
use crate::params::spec_add_list;
use crate::params::spec_analyze;
use crate::params::spec_analyze_list;
use crate::params::spec_merge;
use crate::transform::spec_transform_body;
use crate::transform::transform_function_body;

verus! {

/// The declared return of a procedure: nothing, or anything else.
#[derive(Clone, Copy, Debug, PartialEq, Eq, Structural)]
pub enum ReturnKind {
    /// The unit return a schedulable procedure must have.
    Unit,
    /// A non-empty return type: rejected.
    Other,
}

/// The pattern a parameter is bound by.
#[derive(Clone, Copy, Debug, PartialEq, Eq, Structural)]
pub enum ParamPattern {
    /// A simple name binding.
    Ident,
    /// Anything else: rejected.
    Other,
}

/// One declared parameter.
#[derive(Debug)]
pub enum ProcParam {
    /// An implicit receiver: rejected.
    Receiver,
    /// An ordinary parameter with its binding pattern and declared type.
    Typed { pat: ParamPattern, ty: ParamType },
}

/// A declared procedure, as handed to the engine.
#[derive(Debug)]
pub struct ProcDecl {
    /// The namespace the procedure is declared in.
    pub namespace: String,
    /// The procedure's own name.
    pub name: String,
    /// Its declared return.
    pub ret: ReturnKind,
    /// Its parameters, in order.
    pub params: Vec<ProcParam>,
    /// Its body.
    pub body: Vec<SrcStmt>,
}

/// Why a declaration was rejected. All three are fatal at transform time:
/// the procedure is never made schedulable.
#[derive(Clone, Copy, Debug, PartialEq, Eq, Structural)]
pub enum CompileError {
    /// The procedure declares a non-empty return type.
    NonUnitReturn,
    /// The procedure takes an implicit receiver.
    ReceiverParam,
    /// A parameter is bound by something other than a simple name.
    NonSimplePattern,
}

/// A procedure made schedulable.
#[derive(Debug, PartialEq, Eq)]
pub struct CompiledSystem {
    /// The stable identity the registry files the procedure under.
    pub identity: String,
    /// The name of the generated parameter-bundle type.
    pub params_struct_name: String,
    /// Which host lifetimes the parameter bundle requires.
    pub lifetime_req: LifetimeRequirement,
    /// The parameter types, rewritten with the host lifetimes.
    pub param_types: Vec<ParamType>,
    /// The body, lowered into its resumable form.
    pub body: Vec<MStmt>,
}

/// The rejection one parameter earns on its own, if any.
pub open spec fn spec_param_error(p: ProcParam) -> Option<CompileError> {
    match p {
        ProcParam::Receiver => Option::Some(CompileError::ReceiverParam),
        ProcParam::Typed { pat: ParamPattern::Other, .. } => Option::Some(
            CompileError::NonSimplePattern,
        ),
        _ => Option::None,
    }
}

/// The first rejection among the parameters, in declaration order, if any.
pub open spec fn spec_params_error(ps: Seq<ProcParam>) -> Option<CompileError>
    decreases ps,
{
    if ps.len() == 0 {
        Option::None
    } else if spec_param_error(ps[0]) is Some {
        spec_param_error(ps[0])
    } else {
        spec_params_error(ps.drop_first())
    }
}

/// The declared types of the ordinary parameters, in order.
pub open spec fn spec_typed_types(ps: Seq<ProcParam>) -> Seq<ParamTypeV>
    decreases ps,
{
    if ps.len() == 0 {
        Seq::empty()
    } else {
        match ps.last() {
            ProcParam::Typed { ty, .. } => spec_typed_types(ps.drop_last()).push(ty@),
            ProcParam::Receiver => spec_typed_types(ps.drop_last()),
        }
    }
}

/// The stable identity of a procedure: its namespace, a separator, its
/// name.
pub open spec fn spec_identity(namespace: Seq<char>, name: Seq<char>) -> Seq<char> {
    namespace + "::"@ + name
}

/// The uppercase form of an ASCII lowercase letter; any other character is
/// unchanged.
pub open spec fn spec_upper(c: char) -> char {
    if 97 <= c as u32 <= 122 {
        (((c as u32) - 32) as u8) as char
    } else {
        c
    }
}

/// The camel-case conversion from a given boundary state: an underscore is
/// dropped and starts a new word, the first character of a word is
/// uppercased, and every other character is kept.
pub open spec fn spec_camel_from(s: Seq<char>, boundary: bool) -> Seq<char>
    decreases s,
{
    if s.len() == 0 {
        Seq::empty()
    } else if s[0] == '_' {
        spec_camel_from(s.drop_first(), true)
    } else if boundary {
        seq![spec_upper(s[0])] + spec_camel_from(s.drop_first(), false)
    } else {
        seq![s[0]] + spec_camel_from(s.drop_first(), false)
    }
}

/// The camel-case conversion of a snake-case name.
pub open spec fn spec_camel(s: Seq<char>) -> Seq<char> {
    spec_camel_from(s, true)
}

/// The name of the generated parameter-bundle type: the procedure's name
/// with a fixed suffix, in camel case.
pub open spec fn spec_struct_name(name: Seq<char>) -> Seq<char> {
    spec_camel(name + seq!['P', 'a', 'r', 'a', 'm', 's'])
}

/// Relies on str::chars collected into a vector: the characters of the
/// string, in order.
#[verifier::external_body]
fn string_chars(s: &String) -> (r: Vec<char>)
    ensures
        r@ == s@,
{
    s.chars().collect()
}

/// Relies on String collected from an iterator of characters: a string of
/// exactly those characters, in order.
#[verifier::external_body]
fn chars_to_string(v: &Vec<char>) -> (r: String)
    ensures
        r@ == v@,
{
    v.iter().collect()
}

/// Uppercases an ASCII lowercase letter; leaves any other character alone.
fn upper_char(c: char) -> (r: char)
    ensures
        r == spec_upper(c),
{
    let v = c as u32;
    if 97 <= v && v <= 122 {
        ((v - 32) as u8) as char
    } else {
        c
    }
}

/// Converts a snake-case name to camel case: underscores are dropped, and
/// the character after a word boundary is uppercased.
fn to_camel(cs: &Vec<char>) -> (r: Vec<char>)
    ensures
        r@ == spec_camel(cs@),
{
    let mut r: Vec<char> = Vec::new();
    let mut boundary = true;
    let n = cs.len();
    let mut i: usize = 0;
    proof {
        assert(cs@.subrange(0, n as int) =~= cs@);
        assert(Seq::<char>::empty() + spec_camel_from(cs@, true) =~= spec_camel_from(cs@, true));
    }
    #[verifier::loop_isolation(false)]
    while i < n
        invariant
            i <= n,
            spec_camel(cs@) == r@ + spec_camel_from(cs@.subrange(i as int, n as int), boundary),
        decreases n - i,
    {
        let ghost rest = cs@.subrange(i as int, n as int);
        proof {
            assert(rest[0] == cs@[i as int]);
            assert(rest.drop_first() =~= cs@.subrange(i + 1, n as int));
        }
        let c = cs[i];
        if c == '_' {
            boundary = true;
        } else if boundary {
            r.push(upper_char(c));
            boundary = false;
            proof {
                assert(r@ + spec_camel_from(cs@.subrange(i + 1, n as int), false) =~= (r@.drop_last()
                    + (seq![spec_upper(cs@[i as int])] + spec_camel_from(
                    cs@.subrange(i + 1, n as int),
                    false,
                ))));
            }
        } else {
            r.push(c);
            proof {
                assert(r@ + spec_camel_from(cs@.subrange(i + 1, n as int), false) =~= (r@.drop_last()
                    + (seq![cs@[i as int]] + spec_camel_from(
                    cs@.subrange(i + 1, n as int),
                    false,
                ))));
            }
        }
        i = i + 1;
    }
    proof {
        assert(cs@.subrange(n as int, n as int) =~= Seq::<char>::empty());
        assert(r@ + Seq::<char>::empty() =~= r@);
    }
    r
}

/// If no parameter earns a rejection on its own, the list earns none.
proof fn lemma_params_error_none(ps: Seq<ProcParam>)
    requires
        forall|i: int| 0 <= i < ps.len() ==> spec_param_error(#[trigger] ps[i]) is None,
    ensures
        spec_params_error(ps) is None,
    decreases ps,
{
    if ps.len() > 0 {
        assert(forall|i: int|
            0 <= i < ps.drop_first().len() ==> #[trigger] ps.drop_first()[i] == ps[i + 1]);
        lemma_params_error_none(ps.drop_first());
    }
}

/// The first parameter to earn a rejection decides the list's rejection.
proof fn lemma_params_error_at(ps: Seq<ProcParam>, w: int)
    requires
        0 <= w < ps.len(),
        forall|i: int| 0 <= i < w ==> spec_param_error(#[trigger] ps[i]) is None,
        spec_param_error(ps[w]) is Some,
    ensures
        spec_params_error(ps) == spec_param_error(ps[w]),
    decreases ps,
{
    if w > 0 {
        assert(forall|i: int|
            0 <= i < ps.drop_first().len() ==> #[trigger] ps.drop_first()[i] == ps[i + 1]);
        lemma_params_error_at(ps.drop_first(), w - 1);
    }
}

/// Makes one declared procedure schedulable, or rejects it.
///
/// A declaration is rejected exactly when it has a non-empty return type,
/// takes an implicit receiver, or binds a parameter by something other than
/// a simple name; the return type is checked first, then the parameters in
/// order. An accepted procedure yields its stable identity, the name and
/// lifetime needs of its generated parameter bundle, its parameter types
/// rewritten with the host lifetimes, and its body lowered into its
/// resumable form.
pub fn coroutine_system(decl: &ProcDecl) -> (r: Result<CompiledSystem, CompileError>)
    ensures
        decl.ret is Other ==> r == Err::<CompiledSystem, CompileError>(CompileError::NonUnitReturn),
        decl.ret is Unit && spec_params_error(decl.params@) is Some ==> r == Err::<
            CompiledSystem,
            CompileError,
        >(spec_params_error(decl.params@)->0),
        decl.ret is Unit && spec_params_error(decl.params@) is None ==> r is Ok && {
            let cs = r->Ok_0;
            &&& cs.identity@ == spec_identity(decl.namespace@, decl.name@)
            &&& cs.params_struct_name@ == spec_struct_name(decl.name@)
            &&& cs.lifetime_req == spec_analyze_list(spec_typed_types(decl.params@))
            &&& ptype_views(cs.param_types@) == spec_add_list(spec_typed_types(decl.params@))
            &&& m_views(cs.body@) == spec_transform_body(src_views(decl.body@))
        },
{
    if matches!(decl.ret, ReturnKind::Other) {
        return Err(CompileError::NonUnitReturn);
    }
    let mut req = LifetimeRequirement::none();
    let mut param_types: Vec<ParamType> = Vec::new();
    let n = decl.params.len();
    let mut i: usize = 0;
    proof {
        assert(decl.params@.subrange(0, 0) =~= Seq::<ProcParam>::empty());
    }
    #[verifier::loop_isolation(false)]
    while i < n
        invariant
            i <= n,
            forall|j: int|
                0 <= j < i ==> spec_param_error(#[trigger] decl.params@[j]) is None,
            req == spec_analyze_list(spec_typed_types(decl.params@.subrange(0, i as int))),
            ptype_views(param_types@) == spec_add_list(
                spec_typed_types(decl.params@.subrange(0, i as int)),
            ),
        decreases n - i,
    {
        let ghost prefix = decl.params@.subrange(0, i as int);
        let ghost step = decl.params@.subrange(0, i + 1);
        proof {
            assert(step.drop_last() =~= prefix);
            assert(step.last() == decl.params@[i as int]);
        }
        match &decl.params[i] {
            ProcParam::Receiver => {
                proof {
                    lemma_params_error_at(decl.params@, i as int);
                }
                return Err(CompileError::ReceiverParam);
            },
            ProcParam::Typed { pat, ty } => {
                if matches!(pat, ParamPattern::Other) {
                    proof {
                        lemma_params_error_at(decl.params@, i as int);
                    }
                    return Err(CompileError::NonSimplePattern);
                }
                req.merge(analyze_lifetime_requirements(ty));
                let ghost pre_types = param_types@;
                param_types.push(add_lifetimes_to_type(ty));
                proof {
                    crate::params::lemma_ptype_views_push(pre_types, param_types@.last());
                    let tt = spec_typed_types(prefix);
                    let y = ty@;
                    assert(spec_typed_types(step) == tt.push(y));
                    assert(tt.push(y).drop_last() =~= tt);
                    assert(tt.push(y).last() == y);
                    assert(spec_analyze_list(tt.push(y)) == spec_merge(
                        spec_analyze_list(tt),
                        spec_analyze(y),
                    ));
                    assert(spec_add_list(tt.push(y)) =~= spec_add_list(tt).push(
                        crate::params::spec_add_lifetimes(y),
                    ));
                    assert(ptype_views(param_types@) =~= spec_add_list(spec_typed_types(step)));
                }
            },
        }
        i = i + 1;
    }
    proof {
        assert(decl.params@.subrange(0, n as int) =~= decl.params@);
        lemma_params_error_none(decl.params@);
    }
    let identity = decl.namespace.clone().concat("::").concat(decl.name.as_str());
    let mut name_chars = string_chars(&decl.name);
    name_chars.push('P');
    name_chars.push('a');
    name_chars.push('r');
    name_chars.push('a');
    name_chars.push('m');
    name_chars.push('s');
    proof {
        assert(name_chars@ =~= decl.name@ + seq!['P', 'a', 'r', 'a', 'm', 's']);
    }
    let camel = to_camel(&name_chars);
    let params_struct_name = chars_to_string(&camel);
    let body = transform_function_body(&decl.body);
    Ok(
        CompiledSystem {
            identity,
            params_struct_name,
            lifetime_req: req,
            param_types,
            body,
        },
    )
}

} // verus!
