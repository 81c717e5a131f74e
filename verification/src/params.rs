//! Analysis of a procedure's parameter types for the host's parameter
//! binding convention.
//!
//! The host hands each driver a bundle of parameters whose types borrow from
//! the world and from per-system state under two distinguished lifetimes.
//! For each declared parameter type, the engine works out which of the two
//! lifetimes the type requires, and rewrites the type with the lifetime
//! arguments the host's well-known parameter types expect.

use vstd::prelude::*;

verus! {

/// A lifetime argument of a host parameter type.
#[derive(Clone, Copy, Debug, PartialEq, Eq, Structural)]
pub enum Lifetime {
    /// The world borrow.
    World,
    /// The per-system state borrow.
    State,
    /// The unconstrained lifetime a bare reference defaults to.
    Static,
}

/// The well-known host parameter type a path segment names, if any.
#[derive(Clone, Copy, Debug, PartialEq, Eq, Structural)]
pub enum HostParam {
    Commands,
    Query,
    Res,
    ResMut,
    Local,
    EventWriter,
    EventReader,
    /// Any other name: no lifetimes of its own.
    Other,
}

/// Which of the two host lifetimes a parameter type requires.
#[derive(Clone, Copy, Debug, PartialEq, Eq, Structural)]
pub struct LifetimeRequirement {
    /// The type borrows from the world.
    pub needs_w: bool,
    /// The type borrows from per-system state.
    pub needs_s: bool,
}

/// The union of two requirements.
pub open spec fn spec_merge(a: LifetimeRequirement, b: LifetimeRequirement) -> LifetimeRequirement {
    LifetimeRequirement { needs_w: a.needs_w || b.needs_w, needs_s: a.needs_s || b.needs_s }
}

impl LifetimeRequirement {
    /// No lifetime required.
    pub fn none() -> (r: LifetimeRequirement)
        ensures
            r == (LifetimeRequirement { needs_w: false, needs_s: false }),
    {
        LifetimeRequirement { needs_w: false, needs_s: false }
    }

    /// Folds another requirement into this one.
    pub fn merge(&mut self, other: LifetimeRequirement)
        ensures
            *final(self) == spec_merge(*old(self), other),
    {
        self.needs_w = self.needs_w || other.needs_w;
        self.needs_s = self.needs_s || other.needs_s;
    }
}

/// A declared parameter type, as far as the analysis reads it.
#[derive(Debug, PartialEq, Eq)]
pub enum ParamType {
    /// `&T` or `&mut T`, with its explicit lifetime if it has one.
    Reference { lifetime: Option<Lifetime>, mutable: bool, elem: Box<ParamType> },
    /// A tuple of types.
    Tuple { elems: Vec<ParamType> },
    /// A path of segments, e.g. a well-known host parameter type applied to
    /// type arguments.
    Path { segments: Vec<PathSegment> },
    /// Any other type; passed through untouched.
    Opaque,
}

/// One segment of a path type.
#[derive(Debug, PartialEq, Eq)]
pub struct PathSegment {
    /// Which well-known host parameter type the segment names, if any.
    pub kind: HostParam,
    /// Whether the segment already carries an angle-bracketed argument list.
    pub bracketed: bool,
    /// The lifetime arguments, in front of the type arguments.
    pub lifetimes: Vec<Lifetime>,
    /// The type arguments.
    pub args: Vec<ParamType>,
}

/// The mathematical mirror of a parameter type.
#[verifier::ext_equal]
pub enum ParamTypeV {
    Reference { lifetime: Option<Lifetime>, mutable: bool, elem: Box<ParamTypeV> },
    Tuple { elems: Seq<ParamTypeV> },
    Path { segments: Seq<PathSegmentV> },
    Opaque,
}

/// The mathematical mirror of a path segment.
#[verifier::ext_equal]
pub struct PathSegmentV {
    pub kind: HostParam,
    pub bracketed: bool,
    pub lifetimes: Seq<Lifetime>,
    pub args: Seq<ParamTypeV>,
}

/// The mirrors of a sequence of parameter types, elementwise.
pub open spec fn ptype_views(ts: Seq<ParamType>) -> Seq<ParamTypeV>
    decreases ts,
{
    if ts.len() == 0 {
        Seq::empty()
    } else {
        ptype_views(ts.drop_last()).push(ts.last()@)
    }
}

/// The mirrors of a sequence of path segments, elementwise.
pub open spec fn pseg_views(ss: Seq<PathSegment>) -> Seq<PathSegmentV>
    decreases ss,
{
    if ss.len() == 0 {
        Seq::empty()
    } else {
        pseg_views(ss.drop_last()).push(ss.last()@)
    }
}

impl View for ParamType {
    type V = ParamTypeV;

    open spec fn view(&self) -> ParamTypeV
        decreases self,
    {
        match self {
            ParamType::Reference { lifetime, mutable, elem } => ParamTypeV::Reference {
                lifetime: *lifetime,
                mutable: *mutable,
                elem: Box::new((**elem)@),
            },
            ParamType::Tuple { elems } => ParamTypeV::Tuple { elems: ptype_views(elems@) },
            ParamType::Path { segments } => ParamTypeV::Path { segments: pseg_views(segments@) },
            ParamType::Opaque => ParamTypeV::Opaque,
        }
    }
}

impl View for PathSegment {
    type V = PathSegmentV;

    open spec fn view(&self) -> PathSegmentV
        decreases self,
    {
        PathSegmentV {
            kind: self.kind,
            bracketed: self.bracketed,
            lifetimes: self.lifetimes@,
            args: ptype_views(self.args@),
        }
    }
}

/// Mirroring commutes with appending one type.
pub proof fn lemma_ptype_views_push(ts: Seq<ParamType>, t: ParamType)
    ensures
        ptype_views(ts.push(t)) == ptype_views(ts).push(t@),
{
    assert(ts.push(t).drop_last() =~= ts);
    assert(ptype_views(ts.push(t)) == ptype_views(ts).push(t@));
}

/// Mirroring commutes with appending one segment.
pub proof fn lemma_pseg_views_push(ss: Seq<PathSegment>, s: PathSegment)
    ensures
        pseg_views(ss.push(s)) == pseg_views(ss).push(s@),
{
    assert(ss.push(s).drop_last() =~= ss);
    assert(pseg_views(ss.push(s)) == pseg_views(ss).push(s@));
}

/// The lifetimes each well-known host parameter type requires of its host.
pub open spec fn spec_needs(k: HostParam) -> LifetimeRequirement {
    match k {
        HostParam::Commands => LifetimeRequirement { needs_w: true, needs_s: true },
        HostParam::Query => LifetimeRequirement { needs_w: true, needs_s: true },
        HostParam::Res => LifetimeRequirement { needs_w: true, needs_s: false },
        HostParam::ResMut => LifetimeRequirement { needs_w: true, needs_s: false },
        HostParam::Local => LifetimeRequirement { needs_w: false, needs_s: true },
        HostParam::EventWriter => LifetimeRequirement { needs_w: true, needs_s: false },
        HostParam::EventReader => LifetimeRequirement { needs_w: true, needs_s: true },
        HostParam::Other => LifetimeRequirement { needs_w: false, needs_s: false },
    }
}

/// Which lifetimes a parameter type requires: a reference inherits its
/// element's needs, a tuple unites its elements' needs, and a path unites,
/// over its segments, the well-known name's own needs with those of its type
/// arguments.
pub open spec fn spec_analyze(t: ParamTypeV) -> LifetimeRequirement
    decreases t,
{
    match t {
        ParamTypeV::Reference { elem, .. } => spec_analyze(*elem),
        ParamTypeV::Tuple { elems } => spec_analyze_list(elems),
        ParamTypeV::Path { segments } => spec_analyze_segs(segments),
        ParamTypeV::Opaque => LifetimeRequirement { needs_w: false, needs_s: false },
    }
}

/// The union of the requirements of a list of types.
pub open spec fn spec_analyze_list(ts: Seq<ParamTypeV>) -> LifetimeRequirement
    decreases ts,
{
    if ts.len() == 0 {
        LifetimeRequirement { needs_w: false, needs_s: false }
    } else {
        spec_merge(spec_analyze_list(ts.drop_last()), spec_analyze(ts.last()))
    }
}

/// The union of the requirements of a list of path segments.
pub open spec fn spec_analyze_segs(ss: Seq<PathSegmentV>) -> LifetimeRequirement
    decreases ss,
{
    if ss.len() == 0 {
        LifetimeRequirement { needs_w: false, needs_s: false }
    } else {
        spec_merge(
            spec_analyze_segs(ss.drop_last()),
            spec_merge(spec_needs(ss.last().kind), spec_analyze_list(ss.last().args)),
        )
    }
}

/// Works out which of the two host lifetimes a declared parameter type
/// requires.
pub fn analyze_lifetime_requirements(ty: &ParamType) -> (r: LifetimeRequirement)
    ensures
        r == spec_analyze(ty@),
    decreases *ty,
{
    match ty {
        ParamType::Reference { elem, .. } => analyze_lifetime_requirements(elem),
        ParamType::Tuple { elems } => analyze_list(elems),
        ParamType::Path { segments } => {
            let mut req = LifetimeRequirement::none();
            let n = segments.len();
            let mut i: usize = 0;
            proof {
                assert(pseg_views(segments@.subrange(0, 0)) =~= Seq::<PathSegmentV>::empty());
            }
            #[verifier::loop_isolation(false)]
            while i < n
                invariant
                    i <= n,
                    req == spec_analyze_segs(pseg_views(segments@.subrange(0, i as int))),
                decreases n - i,
            {
                let seg = &segments[i];
                req.merge(needs_of(&seg.kind));
                req.merge(analyze_list(&seg.args));
                proof {
                    assert(segments@.subrange(0, i + 1).drop_last() =~= segments@.subrange(
                        0,
                        i as int,
                    ));
                    lemma_pseg_views_push(segments@.subrange(0, i as int), segments@[i as int]);
                    let p = pseg_views(segments@.subrange(0, i as int));
                    let y = segments@[i as int]@;
                    assert(pseg_views(segments@.subrange(0, i + 1)) == p.push(y));
                    assert(p.push(y).drop_last() =~= p);
                    assert(p.push(y).last() == y);
                    assert(spec_analyze_segs(p.push(y)) == spec_merge(
                        spec_analyze_segs(p),
                        spec_merge(spec_needs(y.kind), spec_analyze_list(y.args)),
                    ));
                }
                i = i + 1;
            }
            proof {
                assert(segments@.subrange(0, n as int) =~= segments@);
            }
            req
        },
        ParamType::Opaque => LifetimeRequirement::none(),
    }
}

/// The union of the requirements of a list of declared types.
fn analyze_list(ts: &Vec<ParamType>) -> (r: LifetimeRequirement)
    ensures
        r == spec_analyze_list(ptype_views(ts@)),
    decreases ts@,
{
    let mut req = LifetimeRequirement::none();
    let n = ts.len();
    let mut i: usize = 0;
    proof {
        assert(ptype_views(ts@.subrange(0, 0)) =~= Seq::<ParamTypeV>::empty());
    }
    #[verifier::loop_isolation(false)]
    while i < n
        invariant
            i <= n,
            req == spec_analyze_list(ptype_views(ts@.subrange(0, i as int))),
        decreases n - i,
    {
        req.merge(analyze_lifetime_requirements(&ts[i]));
        proof {
            assert(ts@.subrange(0, i + 1).drop_last() =~= ts@.subrange(0, i as int));
            lemma_ptype_views_push(ts@.subrange(0, i as int), ts@[i as int]);
            let p = ptype_views(ts@.subrange(0, i as int));
            let y = ts@[i as int]@;
            assert(ptype_views(ts@.subrange(0, i + 1)) == p.push(y));
            assert(p.push(y).drop_last() =~= p);
            assert(p.push(y).last() == y);
            assert(spec_analyze_list(p.push(y)) == spec_merge(
                spec_analyze_list(p),
                spec_analyze(y),
            ));
        }
        i = i + 1;
    }
    proof {
        assert(ts@.subrange(0, n as int) =~= ts@);
    }
    req
}

/// The requirement of one well-known name alone.
fn needs_of(k: &HostParam) -> (r: LifetimeRequirement)
    ensures
        r == spec_needs(*k),
{
    match k {
        HostParam::Commands => LifetimeRequirement { needs_w: true, needs_s: true },
        HostParam::Query => LifetimeRequirement { needs_w: true, needs_s: true },
        HostParam::Res => LifetimeRequirement { needs_w: true, needs_s: false },
        HostParam::ResMut => LifetimeRequirement { needs_w: true, needs_s: false },
        HostParam::Local => LifetimeRequirement { needs_w: false, needs_s: true },
        HostParam::EventWriter => LifetimeRequirement { needs_w: true, needs_s: false },
        HostParam::EventReader => LifetimeRequirement { needs_w: true, needs_s: true },
        HostParam::Other => LifetimeRequirement { needs_w: false, needs_s: false },
    }
}

/// The lifetime arguments inserted in front of a well-known host parameter
/// type's argument list.
pub open spec fn spec_inserted(k: HostParam) -> Seq<Lifetime> {
    match k {
        HostParam::Commands => seq![Lifetime::World, Lifetime::State],
        HostParam::Query => seq![Lifetime::World, Lifetime::State],
        HostParam::EventReader => seq![Lifetime::World, Lifetime::State],
        HostParam::Res => seq![Lifetime::World],
        HostParam::ResMut => seq![Lifetime::World],
        HostParam::EventWriter => seq![Lifetime::World],
        HostParam::Local => seq![Lifetime::State],
        HostParam::Other => Seq::empty(),
    }
}

/// A declared parameter type with the host lifetimes added: a bare
/// reference defaults to the unconstrained lifetime, a well-known host
/// parameter type gains the lifetime arguments it expects in front of its
/// own, and type arguments are rewritten recursively.
pub open spec fn spec_add_lifetimes(t: ParamTypeV) -> ParamTypeV
    decreases t,
{
    match t {
        ParamTypeV::Reference { lifetime, mutable, elem } => ParamTypeV::Reference {
            lifetime: Option::Some(
                if lifetime is Some {
                    lifetime->0
                } else {
                    Lifetime::Static
                },
            ),
            mutable,
            elem: Box::new(spec_add_lifetimes(*elem)),
        },
        ParamTypeV::Tuple { elems } => ParamTypeV::Tuple { elems: spec_add_list(elems) },
        ParamTypeV::Path { segments } => ParamTypeV::Path { segments: spec_add_segs(segments) },
        ParamTypeV::Opaque => ParamTypeV::Opaque,
    }
}

/// Each type of a list with the host lifetimes added.
pub open spec fn spec_add_list(ts: Seq<ParamTypeV>) -> Seq<ParamTypeV>
    decreases ts,
{
    if ts.len() == 0 {
        Seq::empty()
    } else {
        spec_add_list(ts.drop_last()).push(spec_add_lifetimes(ts.last()))
    }
}

/// Each segment of a path with the host lifetimes added.
pub open spec fn spec_add_segs(ss: Seq<PathSegmentV>) -> Seq<PathSegmentV>
    decreases ss,
{
    if ss.len() == 0 {
        Seq::empty()
    } else {
        spec_add_segs(ss.drop_last()).push(
            PathSegmentV {
                kind: ss.last().kind,
                bracketed: ss.last().bracketed || spec_inserted(ss.last().kind).len() > 0,
                lifetimes: spec_inserted(ss.last().kind) + ss.last().lifetimes,
                args: spec_add_list(ss.last().args),
            },
        )
    }
}

/// The lifetime arguments a well-known name expects, as a vector.
fn inserted_of(k: &HostParam) -> (r: Vec<Lifetime>)
    ensures
        r@ == spec_inserted(*k),
{
    let mut r: Vec<Lifetime> = Vec::new();
    match k {
        HostParam::Commands | HostParam::Query | HostParam::EventReader => {
            r.push(Lifetime::World);
            r.push(Lifetime::State);
        },
        HostParam::Res | HostParam::ResMut | HostParam::EventWriter => {
            r.push(Lifetime::World);
        },
        HostParam::Local => {
            r.push(Lifetime::State);
        },
        HostParam::Other => {},
    }
    proof {
        assert(r@ =~= spec_inserted(*k));
    }
    r
}

/// Rewrites a declared parameter type with the lifetime arguments the
/// host's well-known parameter types expect.
pub fn add_lifetimes_to_type(ty: &ParamType) -> (r: ParamType)
    ensures
        r@ == spec_add_lifetimes(ty@),
    decreases *ty,
{
    match ty {
        ParamType::Reference { lifetime, mutable, elem } => {
            let lt = match lifetime {
                Some(l) => *l,
                None => Lifetime::Static,
            };
            ParamType::Reference {
                lifetime: Some(lt),
                mutable: *mutable,
                elem: Box::new(add_lifetimes_to_type(elem)),
            }
        },
        ParamType::Tuple { elems } => ParamType::Tuple { elems: add_list(elems) },
        ParamType::Path { segments } => {
            let mut out: Vec<PathSegment> = Vec::new();
            let n = segments.len();
            let mut i: usize = 0;
            proof {
                assert(segments@.subrange(0, 0) =~= Seq::<PathSegment>::empty());
                assert(pseg_views(out@) =~= spec_add_segs(pseg_views(segments@.subrange(0, 0))));
            }
            #[verifier::loop_isolation(false)]
            while i < n
                invariant
                    i <= n,
                    pseg_views(out@) == spec_add_segs(pseg_views(segments@.subrange(0, i as int))),
                decreases n - i,
            {
                let seg = &segments[i];
                let mut lf = inserted_of(&seg.kind);
                let had_inserted = lf.len() > 0;
                let ghost ins = lf@;
                let m = seg.lifetimes.len();
                let mut j: usize = 0;
                #[verifier::loop_isolation(false)]
                while j < m
                    invariant
                        j <= m,
                        lf@ == ins + seg.lifetimes@.subrange(0, j as int),
                    decreases m - j,
                {
                    lf.push(seg.lifetimes[j]);
                    proof {
                        assert(ins + seg.lifetimes@.subrange(0, j + 1) =~= (ins
                            + seg.lifetimes@.subrange(0, j as int)).push(seg.lifetimes@[j as int]));
                    }
                    j = j + 1;
                }
                proof {
                    assert(seg.lifetimes@.subrange(0, m as int) =~= seg.lifetimes@);
                }
                let new_seg = PathSegment {
                    kind: seg.kind,
                    bracketed: seg.bracketed || had_inserted,
                    lifetimes: lf,
                    args: add_list(&seg.args),
                };
                let ghost pre_out = out@;
                out.push(new_seg);
                proof {
                    lemma_pseg_views_push(pre_out, out@.last());
                    assert(segments@.subrange(0, i + 1).drop_last() =~= segments@.subrange(
                        0,
                        i as int,
                    ));
                    lemma_pseg_views_push(segments@.subrange(0, i as int), segments@[i as int]);
                    assert(pseg_views(segments@.subrange(0, i + 1)) == pseg_views(
                        segments@.subrange(0, i as int),
                    ).push(segments@[i as int]@));
                    assert(out@.last()@ =~= PathSegmentV {
                        kind: segments@[i as int]@.kind,
                        bracketed: segments@[i as int]@.bracketed || spec_inserted(
                            segments@[i as int]@.kind,
                        ).len() > 0,
                        lifetimes: spec_inserted(segments@[i as int]@.kind)
                            + segments@[i as int]@.lifetimes,
                        args: spec_add_list(segments@[i as int]@.args),
                    });
                    let p = pseg_views(segments@.subrange(0, i as int));
                    let y = segments@[i as int]@;
                    assert(pseg_views(segments@.subrange(0, i + 1)) == p.push(y));
                    assert(p.push(y).drop_last() =~= p);
                    assert(p.push(y).last() == y);
                    assert(pseg_views(out@) =~= spec_add_segs(
                        pseg_views(segments@.subrange(0, i + 1)),
                    ));
                }
                i = i + 1;
            }
            proof {
                assert(segments@.subrange(0, n as int) =~= segments@);
            }
            ParamType::Path { segments: out }
        },
        ParamType::Opaque => ParamType::Opaque,
    }
}

/// Rewrites each type of a list.
fn add_list(ts: &Vec<ParamType>) -> (r: Vec<ParamType>)
    ensures
        ptype_views(r@) == spec_add_list(ptype_views(ts@)),
    decreases ts@,
{
    let mut r: Vec<ParamType> = Vec::new();
    let n = ts.len();
    let mut i: usize = 0;
    proof {
        assert(ts@.subrange(0, 0) =~= Seq::<ParamType>::empty());
        assert(ptype_views(r@) =~= spec_add_list(ptype_views(ts@.subrange(0, 0))));
    }
    #[verifier::loop_isolation(false)]
    while i < n
        invariant
            i <= n,
            ptype_views(r@) == spec_add_list(ptype_views(ts@.subrange(0, i as int))),
        decreases n - i,
    {
        let ghost pre_r = r@;
        r.push(add_lifetimes_to_type(&ts[i]));
        proof {
            lemma_ptype_views_push(pre_r, r@.last());
            assert(ts@.subrange(0, i + 1).drop_last() =~= ts@.subrange(0, i as int));
            lemma_ptype_views_push(ts@.subrange(0, i as int), ts@[i as int]);
            let p = ptype_views(ts@.subrange(0, i as int));
            let y = ts@[i as int]@;
            assert(ptype_views(ts@.subrange(0, i + 1)) == p.push(y));
            assert(p.push(y).drop_last() =~= p);
            assert(p.push(y).last() == y);
            assert(ptype_views(r@) =~= spec_add_list(ptype_views(ts@.subrange(0, i + 1))));
        }
        i = i + 1;
    }
    proof {
        assert(ts@.subrange(0, n as int) =~= ts@);
    }
    r
}

} // verus!
