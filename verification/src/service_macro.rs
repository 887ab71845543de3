//! What the `service` attribute reads from a service trait: which of its items become
//! rpcs, under which variant name, with which inputs, and the `Ok` and `Err` types of
//! each. Types are seen as far as these decisions read them; the syntax tree itself and
//! the code that is generated from these decisions stay with the caller.
use vstd::prelude::*;
use vstd::string::StringExecFns;

verus! {

/// The last segment of a path type: its name, and, when it has angle-bracketed generic
/// arguments, which of them are types (`true`) and which are something else.
pub struct PathSegmentShape {
    pub ident: String,
    pub arguments: Option<Vec<bool>>,
}

/// A type, as far as `extract_result_types` reads it: a path type with its last segment
/// (`None` when the path has no segment), or any other type.
pub enum TypeShape {
    Path(Option<PathSegmentShape>),
    Other,
}

/// The `Ok` and `Err` types of a `Result` type, as the positions of its generic
/// arguments; or no `Result` type at all.
#[derive(PartialEq, Eq, Structural, Clone, Copy, Debug)]
pub enum ResultTypes {
    ResultType { ok: usize, err: usize },
    NonResultType,
}

/// Why a service trait cannot be turned into a service.
#[derive(Debug)]
pub enum Unsupported {
    /// A return type is a path without segments.
    EmptyPath,
    /// A `Result` return type has no generic arguments between its angle brackets.
    NoArguments,
    /// The first generic argument of a `Result` return type is not a type.
    OkArgumentNotType,
    /// The last generic argument of a `Result` return type is not a type.
    ErrArgumentNotType,
    /// A function returns something other than a `Result`.
    ReturnType,
    /// The function with this name has a default body.
    DefaultBody(String),
    /// The item is neither an impl block nor a trait.
    UnsupportedItem,
    /// The impl block is for a type that is not a path.
    UnsupportedImplType,
}

/// A function of a service trait, as far as the `service` attribute reads it: its name,
/// whether it is `async`, which of its parameters are typed (`false` for the receiver),
/// its return type (`None` when it declares none), and whether it has a default body.
pub struct FnShape {
    pub name: String,
    pub is_async: bool,
    pub typed_inputs: Vec<bool>,
    pub output: Option<TypeShape>,
    pub has_default: bool,
}

/// An item of a service trait: a function, or anything else.
pub enum TraitItemShape {
    Fn(FnShape),
    Other,
}

/// A function of the service trait that becomes an rpc: the position of the item in the
/// trait, the name of its request, response and error variants, whether it is `async`,
/// the positions of its typed parameters, and the positions of the `Ok` and `Err` type
/// arguments of its return type.
pub struct RpcFunction {
    pub item: usize,
    pub variant_name: String,
    pub is_async: bool,
    pub inputs: Vec<usize>,
    pub ok: usize,
    pub err: usize,
}

/// `s` in upper camel case, as the `convert_case` crate writes it.
pub uninterp spec fn upper_camel_case(s: Seq<char>) -> Seq<char>;

/// `Casing::to_case` of `convert_case` with `Case::UpperCamel`. Claimed: the result is
/// `upper_camel_case` of the text; what that is (how words are split and capitalized)
/// is not stated.
#[verifier::external_body]
fn to_upper_camel_case(s: &str) -> (r: String)
    ensures
        r@ == upper_camel_case(s@),
{
    convert_case::Casing::to_case(&s, convert_case::Case::UpperCamel)
}

/// `ty` is a `Result` type to `extract_result_types`: a path whose last segment is named
/// `Result` and has angle-bracketed arguments.
pub open spec fn is_result_path(ty: TypeShape) -> bool {
    &&& ty matches TypeShape::Path(Some(seg))
    &&& seg.ident@ == "Result"@
    &&& seg.arguments is Some
}

/// Why `extract_result_types` cannot read `ty` (it panics on such a type), if it cannot.
pub open spec fn type_problem(ty: TypeShape) -> Option<Unsupported> {
    match ty {
        TypeShape::Path(None) => Some(Unsupported::EmptyPath),
        TypeShape::Path(Some(seg)) => if seg.ident@ == "Result"@ {
            match seg.arguments {
                Some(args) => if args@.len() == 0 {
                    Some(Unsupported::NoArguments)
                } else if !args@[0] {
                    Some(Unsupported::OkArgumentNotType)
                } else if !args@.last() {
                    Some(Unsupported::ErrArgumentNotType)
                } else {
                    None
                },
                None => None,
            }
        } else {
            None
        },
        TypeShape::Other => None,
    }
}

/// What `extract_result_types` gives for `ty`: the first and the last generic argument
/// of a `Result` type, else no `Result` type.
pub open spec fn result_types(ty: TypeShape) -> ResultTypes {
    if is_result_path(ty) {
        ResultTypes::ResultType {
            ok: 0,
            err: (ty->Path_0->Some_0.arguments->Some_0@.len() - 1) as usize,
        }
    } else {
        ResultTypes::NonResultType
    }
}

/// Splits a `Result` return type into its `Ok` and `Err` types: the first and the last
/// of its generic arguments.
pub fn extract_result_types(ty: &TypeShape) -> (r: ResultTypes)
    requires
        type_problem(*ty) is None,
    ensures
        r == result_types(*ty),
{
    if let TypeShape::Path(Some(last_segment)) = ty {
        let result_name = String::from_str("Result");
        if last_segment.ident == result_name {
            if let Some(args) = &last_segment.arguments {
                return ResultTypes::ResultType { ok: 0, err: args.len() - 1 };
            }
        }
    }
    ResultTypes::NonResultType
}

/// Tells why `extract_result_types` cannot read `ty`, if it cannot.
pub fn check_type(ty: &TypeShape) -> (r: Option<Unsupported>)
    ensures
        r == type_problem(*ty),
{
    match ty {
        TypeShape::Path(None) => Some(Unsupported::EmptyPath),
        TypeShape::Path(Some(seg)) => {
            let result_name = String::from_str("Result");
            if seg.ident == result_name {
                match &seg.arguments {
                    Some(args) => if args.len() == 0 {
                        Some(Unsupported::NoArguments)
                    } else if !args[0] {
                        Some(Unsupported::OkArgumentNotType)
                    } else if !args[args.len() - 1] {
                        Some(Unsupported::ErrArgumentNotType)
                    } else {
                        None
                    },
                    None => None,
                }
            } else {
                None
            }
        },
        TypeShape::Other => None,
    }
}

/// Why the signature of `f` cannot become an rpc, if it cannot: its return type must be a
/// `Result` that `extract_result_types` reads.
pub open spec fn signature_problem(f: FnShape) -> Option<Unsupported> {
    match f.output {
        None => Some(Unsupported::ReturnType),
        Some(ty) => match type_problem(ty) {
            Some(p) => Some(p),
            None => if !is_result_path(ty) {
                Some(Unsupported::ReturnType)
            } else {
                None
            },
        },
    }
}

/// Why the function `f` of a service trait cannot become an rpc, if it cannot: its
/// signature must be one, and it must not have a default body.
pub open spec fn fn_problem(f: FnShape) -> Option<Unsupported> {
    match signature_problem(f) {
        Some(p) => Some(p),
        None => if f.has_default {
            Some(Unsupported::DefaultBody(f.name))
        } else {
            None
        },
    }
}

/// A signature can become an rpc exactly when its return type is a `Result` that
/// `extract_result_types` reads; whether it is `async`, its name, its parameters and a
/// default body play no part.
pub proof fn lemma_signature_problem(f: FnShape)
    ensures
        signature_problem(f) is None <==> (f.output matches Some(ty) && type_problem(ty) is None
            && result_types(ty) is ResultType),
{
}

/// Two functions with the same return type have the same signature problem, whatever
/// else differs between them.
pub proof fn lemma_signature_problem_reads_output(f: FnShape, g: FnShape)
    requires
        f.output == g.output,
    ensures
        signature_problem(f) == signature_problem(g),
{
}

/// A function of a service trait is refused only for its return type or for a default
/// body: one whose signature can be an rpc and that has no default body is taken, `async`
/// or not; one with a default body is refused under its own name.
pub proof fn lemma_fn_problem(f: FnShape)
    ensures
        fn_problem(f) is None <==> (signature_problem(f) is None && !f.has_default),
        signature_problem(f) matches Some(p) ==> fn_problem(f) == Some(p),
        signature_problem(f) is None && f.has_default ==> fn_problem(f) == Some(
            Unsupported::DefaultBody(f.name),
        ),
{
}

/// Whether a function is `async`, and which of its parameters are typed, does not change
/// whether (or why) it is refused.
pub proof fn lemma_fn_problem_ignores_async(f: FnShape, g: FnShape)
    requires
        f.name == g.name,
        f.output == g.output,
        f.has_default == g.has_default,
    ensures
        fn_problem(f) == fn_problem(g),
{
}

/// The positions of the `true` entries of `typed`, in order.
pub open spec fn typed_positions(typed: Seq<bool>) -> Seq<usize>
    decreases typed.len(),
{
    if typed.len() == 0 {
        Seq::empty()
    } else if typed.last() {
        typed_positions(typed.drop_last()).push((typed.len() - 1) as usize)
    } else {
        typed_positions(typed.drop_last())
    }
}

/// A position is listed exactly when the parameter there is typed: every listed position
/// is that of a typed parameter, every typed parameter is listed, and the list is strictly
/// increasing, so each is listed once and in the order of the parameters.
pub proof fn lemma_typed_positions(typed: Seq<bool>)
    requires
        typed.len() <= usize::MAX,
    ensures
        forall|i: int|
            0 <= i < typed.len() ==> (#[trigger] typed[i] <==> typed_positions(typed).contains(
                i as usize,
            )),
        forall|k: int|
            0 <= k < typed_positions(typed).len() ==> (#[trigger] typed_positions(typed)[k])
                < typed.len() && typed[typed_positions(typed)[k] as int],
        forall|a: int, b: int|
            0 <= a < b < typed_positions(typed).len() ==> #[trigger] typed_positions(typed)[a]
                < #[trigger] typed_positions(typed)[b],
    decreases typed.len(),
{
    if typed.len() > 0 {
        let prefix = typed.drop_last();
        lemma_typed_positions(prefix);
        let tp = typed_positions(prefix);
        let last = (typed.len() - 1) as usize;
        assert forall|i: int| 0 <= i < typed.len() implies (#[trigger] typed[i]
            <==> typed_positions(typed).contains(i as usize)) by {
            if i < typed.len() - 1 {
                assert(typed[i] == prefix[i]);
                if typed.last() {
                    assert(typed_positions(typed) == tp.push(last));
                    if tp.contains(i as usize) {
                        let k = choose|k: int| 0 <= k < tp.len() && tp[k] == i as usize;
                        assert(tp.push(last)[k] == i as usize);
                    }
                    if tp.push(last).contains(i as usize) {
                        let k = choose|k: int| 0 <= k < tp.len() + 1 && tp.push(last)[k] == i as usize;
                        assert(k < tp.len());
                        assert(tp[k] == i as usize);
                    }
                }
            } else {
                if typed.last() {
                    assert(typed_positions(typed)[tp.len() as int] == last);
                } else {
                    if tp.contains(i as usize) {
                        let k = choose|k: int| 0 <= k < tp.len() && tp[k] == i as usize;
                        assert(tp[k] < prefix.len());
                    }
                }
            }
        }
    }
}

/// `r` is the rpc that the function `f`, item `item` of the trait, becomes.
pub open spec fn rpc_of(r: RpcFunction, item: nat, f: FnShape) -> bool {
    &&& r.item == item
    &&& r.variant_name@ == upper_camel_case(f.name@)
    &&& r.is_async == f.is_async
    &&& r.inputs@ == typed_positions(f.typed_inputs@)
    &&& f.output matches Some(ty) && result_types(ty) == (ResultTypes::ResultType {
        ok: r.ok,
        err: r.err,
    })
}

/// What an rpc holds of the function it comes from, whose signature can be one: its
/// position in the trait, its
/// variant name in upper camel case, whether it is `async` (exactly when the function is),
/// the positions of the typed parameters, and the first and last generic argument of the
/// `Result` that the function returns as its `Ok` and `Err` types.
pub proof fn lemma_rpc_of(r: RpcFunction, item: nat, f: FnShape)
    requires
        rpc_of(r, item, f),
        signature_problem(f) is None,
    ensures
        r.item == item,
        r.is_async == f.is_async,
        r.variant_name@ == upper_camel_case(f.name@),
        r.inputs@ == typed_positions(f.typed_inputs@),
        r.ok == 0,
        f.output matches Some(ty) && is_result_path(ty) && r.err
            == ty->Path_0->Some_0.arguments->Some_0.len() - 1,
{
}

/// The first reason, in the order of the items, why a trait with `items` cannot become a
/// service, if there is one.
pub open spec fn first_problem(items: Seq<TraitItemShape>) -> Option<Unsupported>
    decreases items.len(),
{
    if items.len() == 0 {
        None
    } else {
        match first_problem(items.drop_last()) {
            Some(p) => Some(p),
            None => match items.last() {
                TraitItemShape::Fn(f) => fn_problem(f),
                TraitItemShape::Other => None,
            },
        }
    }
}

/// The positions of the functions among `items`, in order.
pub open spec fn fn_positions(items: Seq<TraitItemShape>) -> Seq<nat>
    decreases items.len(),
{
    if items.len() == 0 {
        Seq::empty()
    } else if items.last() is Fn {
        fn_positions(items.drop_last()).push((items.len() - 1) as nat)
    } else {
        fn_positions(items.drop_last())
    }
}

proof fn lemma_fn_positions_bound(items: Seq<TraitItemShape>)
    ensures
        forall|j: int|
            0 <= j < fn_positions(items).len() ==> #[trigger] fn_positions(items)[j] < items.len()
                && items[fn_positions(items)[j] as int] is Fn,
    decreases items.len(),
{
    if items.len() > 0 {
        lemma_fn_positions_bound(items.drop_last());
    }
}

/// A trait is refused exactly when one of its functions is, and then for the first such
/// function, in the order of the items; items that are not functions are passed over.
pub proof fn lemma_first_problem(items: Seq<TraitItemShape>)
    ensures
        first_problem(items) is None <==> forall|j: int|
            0 <= j < items.len() ==> (#[trigger] items[j] matches TraitItemShape::Fn(f)
                ==> fn_problem(f) is None),
        first_problem(items) matches Some(p) ==> exists|j: int|
            0 <= j < items.len() && (#[trigger] items[j] matches TraitItemShape::Fn(f)
                && fn_problem(f) == Some(p)) && forall|k: int|
                0 <= k < j ==> (#[trigger] items[k] matches TraitItemShape::Fn(g)
                    ==> fn_problem(g) is None),
    decreases items.len(),
{
    if items.len() > 0 {
        let prefix = items.drop_last();
        let n = items.len() - 1;
        lemma_first_problem(prefix);
        assert forall|j: int| 0 <= j < prefix.len() implies #[trigger] prefix[j] == items[j] by {}
        let all_items = forall|j: int|
            0 <= j < items.len() ==> (#[trigger] items[j] matches TraitItemShape::Fn(f)
                ==> fn_problem(f) is None);
        let all_prefix = forall|j: int|
            0 <= j < prefix.len() ==> (#[trigger] prefix[j] matches TraitItemShape::Fn(f)
                ==> fn_problem(f) is None);
        let last_ok = items[n] matches TraitItemShape::Fn(f) ==> fn_problem(f) is None;
        assert(all_items <==> all_prefix && last_ok) by {
            if all_items {
                assert forall|j: int| 0 <= j < prefix.len() implies (#[trigger] prefix[j] matches TraitItemShape::Fn(f)
                    ==> fn_problem(f) is None) by {
                    assert(prefix[j] == items[j]);
                }
            }
            if all_prefix && last_ok {
                assert forall|j: int| 0 <= j < items.len() implies (#[trigger] items[j] matches TraitItemShape::Fn(f)
                    ==> fn_problem(f) is None) by {
                    if j < n {
                        assert(prefix[j] == items[j]);
                    }
                }
            }
        }
        assert(items.last() == items[n]);
        if first_problem(prefix) is None {
            if first_problem(items) is Some {
                assert(items[n] matches TraitItemShape::Fn(f) && fn_problem(f) == first_problem(items));
                assert forall|k: int| 0 <= k < n implies (#[trigger] items[k] matches TraitItemShape::Fn(g)
                    ==> fn_problem(g) is None) by {
                    assert(prefix[k] == items[k]);
                }
            }
        } else {
            let j = choose|j: int|
                0 <= j < prefix.len() && (#[trigger] prefix[j] matches TraitItemShape::Fn(f)
                    && fn_problem(f) == first_problem(prefix)) && forall|k: int|
                    0 <= k < j ==> (#[trigger] prefix[k] matches TraitItemShape::Fn(g)
                        ==> fn_problem(g) is None);
            assert(items[j] == prefix[j]);
            assert forall|k: int| 0 <= k < j implies (#[trigger] items[k] matches TraitItemShape::Fn(g)
                ==> fn_problem(g) is None) by {
                assert(prefix[k] == items[k]);
            }
        }
    }
}

/// Tells why the signature of `f` cannot become an rpc, if it cannot.
fn check_signature(f: &FnShape) -> (r: Option<Unsupported>)
    ensures
        r == signature_problem(*f),
{
    match &f.output {
        None => Some(Unsupported::ReturnType),
        Some(ty) => match check_type(ty) {
            Some(problem) => Some(problem),
            None => match extract_result_types(ty) {
                ResultTypes::NonResultType => Some(Unsupported::ReturnType),
                ResultTypes::ResultType { .. } => None,
            },
        },
    }
}

/// Tells why the function `f` cannot become an rpc, if it cannot.
fn check_fn(f: &FnShape) -> (r: Option<Unsupported>)
    ensures
        r == fn_problem(*f),
{
    match check_signature(f) {
        Some(problem) => Some(problem),
        None => if f.has_default {
            Some(Unsupported::DefaultBody(f.name.clone()))
        } else {
            None
        },
    }
}

/// The rpc that a function whose signature can be one becomes.
fn rpc_function(item: usize, f: &FnShape) -> (r: RpcFunction)
    requires
        signature_problem(*f) is None,
    ensures
        rpc_of(r, item as nat, *f),
{
    let variant_name = to_upper_camel_case(f.name.as_str());
    let inputs = typed_inputs(&f.typed_inputs);
    let (ok, err) = match &f.output {
        Some(ty) => match extract_result_types(ty) {
            ResultTypes::ResultType { ok, err } => (ok, err),
            ResultTypes::NonResultType => (0, 0),
        },
        None => (0, 0),
    };
    RpcFunction { item, variant_name, is_async: f.is_async, inputs, ok, err }
}

/// A problem among the first `k` items is the first problem of all items.
proof fn lemma_first_problem_prefix(items: Seq<TraitItemShape>, k: int)
    requires
        0 <= k <= items.len(),
        first_problem(items.take(k)) is Some,
    ensures
        first_problem(items) == first_problem(items.take(k)),
    decreases items.len(),
{
    if k == items.len() {
        assert(items.take(k) =~= items);
    } else {
        assert(items.drop_last().take(k) =~= items.take(k));
        lemma_first_problem_prefix(items.drop_last(), k);
    }
}

/// The positions of the typed parameters.
fn typed_inputs(typed: &Vec<bool>) -> (r: Vec<usize>)
    ensures
        r@ == typed_positions(typed@),
{
    let mut r: Vec<usize> = Vec::new();
    let mut i: usize = 0;
    proof {
        assert(typed@.take(0) =~= Seq::<bool>::empty());
    }
    while i < typed.len()
        invariant
            i <= typed@.len(),
            r@ == typed_positions(typed@.take(i as int)),
        decreases typed@.len() - i,
    {
        proof {
            assert(typed@.take(i + 1).drop_last() =~= typed@.take(i as int));
        }
        if typed[i] {
            r.push(i);
        }
        i += 1;
    }
    proof {
        assert(typed@.take(i as int) =~= typed@);
    }
    r
}

/// Goes through the items of a service trait and turns each function into an rpc. A
/// function that cannot be one makes the whole trait unsupported: the first such reason,
/// in the order of the items, is returned.
pub fn parse_item(items: &Vec<TraitItemShape>) -> (r: Result<Vec<RpcFunction>, Unsupported>)
    ensures
        r is Ok <==> forall|j: int|
            0 <= j < items@.len() ==> (#[trigger] items@[j] matches TraitItemShape::Fn(f)
                ==> fn_problem(f) is None),
        match r {
            Err(e) => first_problem(items@) == Some(e),
            Ok(rpcs) => {
                &&& first_problem(items@) is None
                &&& rpcs@.len() == fn_positions(items@).len()
                &&& forall|j: int|
                    0 <= j < rpcs@.len() ==> (#[trigger] rpcs@[j]).is_async
                        == items@[fn_positions(items@)[j] as int]->Fn_0.is_async
                &&& forall|j: int|
                    0 <= j < rpcs@.len() ==> rpc_of(
                        #[trigger] rpcs@[j],
                        fn_positions(items@)[j],
                        items@[fn_positions(items@)[j] as int]->Fn_0,
                    )
            },
        },
{
    let mut rpcs: Vec<RpcFunction> = Vec::new();
    let mut i: usize = 0;
    proof {
        lemma_first_problem(items@);
        assert(items@.take(0) =~= Seq::<TraitItemShape>::empty());
    }
    while i < items.len()
        invariant
            i <= items@.len(),
            first_problem(items@.take(i as int)) is None,
            rpcs@.len() == fn_positions(items@.take(i as int)).len(),
            forall|j: int|
                0 <= j < rpcs@.len() ==> rpc_of(
                    #[trigger] rpcs@[j],
                    fn_positions(items@.take(i as int))[j],
                    items@[fn_positions(items@.take(i as int))[j] as int]->Fn_0,
                ),
        decreases items@.len() - i,
    {
        let ghost prefix = items@.take(i as int);
        let ghost next = items@.take(i + 1);
        proof {
            assert(next.drop_last() =~= prefix);
            assert(next.last() == items@[i as int]);
            lemma_fn_positions_bound(prefix);
            assert forall|j: int| 0 <= j < fn_positions(prefix).len() implies next[fn_positions(
                prefix,
            )[j] as int] == items@[fn_positions(prefix)[j] as int] by {}
        }
        if let TraitItemShape::Fn(function) = &items[i] {
            if let Some(problem) = check_fn(function) {
                proof {
                    lemma_first_problem_prefix(items@, i + 1);
                }
                return Err(problem);
            }
            rpcs.push(rpc_function(i, function));
        }
        i += 1;
    }
    proof {
        assert(items@.take(i as int) =~= items@);
    }
    Ok(rpcs)
}

/// The item that the `service_impl` attribute is put on: an impl block for some type, a
/// trait with its name, or anything else.
pub enum ItemShape {
    Impl { self_type: TypeShape },
    Trait { ident: String },
    Other,
}

/// The options of the `service_impl` attribute, as far as they decide: whether the request,
/// response and error types are given, and whether the service, the other side's service
/// and the peer are written.
pub struct ImplOptions {
    pub request: bool,
    pub response: bool,
    pub error: bool,
    pub my_service: bool,
    pub other_service: bool,
    pub peer: bool,
}

/// What the `service_impl` attribute writes: the name of the item; the rpcs of its
/// functions; the names of the request, response and error enums it declares (`None` for
/// a type that the options give); whether it writes the service, the other side's service
/// and the peer; the type those services are implemented for, and whether that type is
/// declared too.
pub struct ImplPlan {
    pub type_ident: String,
    pub rpcs: Vec<RpcFunction>,
    pub request_enum: Option<String>,
    pub response_enum: Option<String>,
    pub error_enum: Option<String>,
    pub my_service: bool,
    pub other_service: bool,
    pub peer: bool,
    pub service_type: String,
    pub declare_service_type: bool,
}

/// The name of the item, or why the attribute cannot take it: an impl block names the
/// last segment of its path type, a trait its own name.
pub open spec fn item_name(item: ItemShape) -> Result<Seq<char>, Unsupported> {
    match item {
        ItemShape::Impl { self_type } => match self_type {
            TypeShape::Path(Some(seg)) => Ok(seg.ident@),
            TypeShape::Path(None) => Err(Unsupported::EmptyPath),
            TypeShape::Other => Err(Unsupported::UnsupportedImplType),
        },
        ItemShape::Trait { ident } => Ok(ident@),
        ItemShape::Other => Err(Unsupported::UnsupportedItem),
    }
}

/// The first reason, in order, why one of the signatures `fns` cannot become an rpc.
pub open spec fn first_signature_problem(fns: Seq<FnShape>) -> Option<Unsupported>
    decreases fns.len(),
{
    if fns.len() == 0 {
        None
    } else {
        match first_signature_problem(fns.drop_last()) {
            Some(p) => Some(p),
            None => signature_problem(fns.last()),
        }
    }
}

/// The signatures are refused exactly when one of them cannot be an rpc, and then for the
/// first such signature, in order.
pub proof fn lemma_first_signature_problem(fns: Seq<FnShape>)
    ensures
        first_signature_problem(fns) is None <==> forall|j: int|
            0 <= j < fns.len() ==> signature_problem(#[trigger] fns[j]) is None,
        first_signature_problem(fns) matches Some(p) ==> exists|j: int|
            0 <= j < fns.len() && signature_problem(#[trigger] fns[j]) == Some(p) && forall|k: int|
                0 <= k < j ==> signature_problem(#[trigger] fns[k]) is None,
    decreases fns.len(),
{
    if fns.len() > 0 {
        let prefix = fns.drop_last();
        let n = fns.len() - 1;
        lemma_first_signature_problem(prefix);
        assert forall|j: int| 0 <= j < prefix.len() implies #[trigger] prefix[j] == fns[j] by {}
        let all_fns = forall|j: int| 0 <= j < fns.len() ==> signature_problem(#[trigger] fns[j]) is None;
        let all_prefix = forall|j: int|
            0 <= j < prefix.len() ==> signature_problem(#[trigger] prefix[j]) is None;
        assert(all_fns <==> all_prefix && signature_problem(fns[n]) is None) by {
            if all_fns {
                assert forall|j: int| 0 <= j < prefix.len() implies signature_problem(#[trigger] prefix[j]) is None by {
                    assert(prefix[j] == fns[j]);
                }
            }
            if all_prefix && signature_problem(fns[n]) is None {
                assert forall|j: int| 0 <= j < fns.len() implies signature_problem(#[trigger] fns[j]) is None by {
                    if j < n {
                        assert(prefix[j] == fns[j]);
                    }
                }
            }
        }
        assert(fns.last() == fns[n]);
        if first_signature_problem(prefix) is None {
            if first_signature_problem(fns) is Some {
                assert(signature_problem(fns[n]) == first_signature_problem(fns));
                assert forall|k: int| 0 <= k < n implies signature_problem(#[trigger] fns[k]) is None by {
                    assert(prefix[k] == fns[k]);
                }
            }
        } else {
            let j = choose|j: int|
                0 <= j < prefix.len() && signature_problem(#[trigger] prefix[j])
                    == first_signature_problem(prefix) && forall|k: int|
                    0 <= k < j ==> signature_problem(#[trigger] prefix[k]) is None;
            assert(fns[j] == prefix[j]);
            assert forall|k: int| 0 <= k < j implies signature_problem(#[trigger] fns[k]) is None by {
                assert(prefix[k] == fns[k]);
            }
        }
    }
}

/// An enum is declared, under the item's name and `suffix`, exactly when the options do
/// not give its type.
pub open spec fn declared_enum(e: Option<String>, given: bool, name: Seq<char>, suffix: Seq<char>) -> bool {
    if given {
        e is None
    } else {
        e matches Some(n) && n@ == name + suffix
    }
}

proof fn lemma_first_signature_problem_prefix(fns: Seq<FnShape>, k: int)
    requires
        0 <= k <= fns.len(),
        first_signature_problem(fns.take(k)) is Some,
    ensures
        first_signature_problem(fns) == first_signature_problem(fns.take(k)),
    decreases fns.len(),
{
    if k == fns.len() {
        assert(fns.take(k) =~= fns);
    } else {
        assert(fns.drop_last().take(k) =~= fns.take(k));
        lemma_first_signature_problem_prefix(fns.drop_last(), k);
    }
}

/// Turns each of the signatures `fns` into an rpc; the first one that cannot be one, in
/// order, makes the whole item unsupported.
pub fn plan_signatures(fns: &Vec<FnShape>) -> (r: Result<Vec<RpcFunction>, Unsupported>)
    ensures
        r is Ok <==> forall|j: int| 0 <= j < fns@.len() ==> signature_problem(#[trigger] fns@[j]) is None,
        match r {
            Err(e) => first_signature_problem(fns@) == Some(e),
            Ok(rpcs) => {
                &&& first_signature_problem(fns@) is None
                &&& rpcs@.len() == fns@.len()
                &&& forall|j: int| 0 <= j < rpcs@.len() ==> (#[trigger] rpcs@[j]).is_async == fns@[j].is_async
                &&& forall|j: int| 0 <= j < rpcs@.len() ==> rpc_of(#[trigger] rpcs@[j], j as nat, fns@[j])
            },
        },
{
    let mut rpcs: Vec<RpcFunction> = Vec::new();
    let mut i: usize = 0;
    proof {
        lemma_first_signature_problem(fns@);
        assert(fns@.take(0) =~= Seq::<FnShape>::empty());
    }
    while i < fns.len()
        invariant
            i <= fns@.len(),
            first_signature_problem(fns@.take(i as int)) is None,
            rpcs@.len() == i,
            forall|j: int| 0 <= j < i ==> rpc_of(#[trigger] rpcs@[j], j as nat, fns@[j]),
        decreases fns@.len() - i,
    {
        proof {
            assert(fns@.take(i + 1).drop_last() =~= fns@.take(i as int));
        }
        if let Some(problem) = check_signature(&fns[i]) {
            proof {
                lemma_first_signature_problem_prefix(fns@, i + 1);
            }
            return Err(problem);
        }
        rpcs.push(rpc_function(i, &fns[i]));
        i += 1;
    }
    proof {
        assert(fns@.take(i as int) =~= fns@);
    }
    Ok(rpcs)
}

/// The name of an enum that is declared unless the options give its type.
fn enum_name(given: bool, name: &String, suffix: &str) -> (r: Option<String>)
    ensures
        declared_enum(r, given, name@, suffix@),
{
    if given {
        None
    } else {
        let mut n = String::from_str(name.as_str());
        n.append(suffix);
        Some(n)
    }
}

/// Decides what the `service_impl` attribute writes for `item`, whose functions have the
/// signatures `fns`. An impl block for a path type is served under the type's name. A
/// trait is served under its name too, but its services are implemented for a struct named
/// `Other` and the trait's name, which is declared. Items of other kinds, impl blocks for
/// other types, and signatures that are no rpcs make the item unsupported.
pub fn plan_service_impl(item: &ItemShape, fns: &Vec<FnShape>, options: &ImplOptions) -> (r:
    Result<ImplPlan, Unsupported>)
    ensures
        match item_name(*item) {
            Err(e) => r == Err::<ImplPlan, Unsupported>(e),
            Ok(name) => match first_signature_problem(fns@) {
                Some(e) => r == Err::<ImplPlan, Unsupported>(e),
                None => r matches Ok(plan) && {
                    &&& plan.type_ident@ == name
                    &&& declared_enum(plan.request_enum, options.request, name, "Request"@)
                    &&& declared_enum(plan.response_enum, options.response, name, "Response"@)
                    &&& declared_enum(plan.error_enum, options.error, name, "Error"@)
                    &&& plan.my_service == options.my_service
                    &&& plan.other_service == options.other_service
                    &&& plan.peer == options.peer
                    &&& plan.declare_service_type == (item is Trait)
                    &&& plan.service_type@ == if item is Trait {
                        "Other"@ + name
                    } else {
                        name
                    }
                    &&& plan.rpcs@.len() == fns@.len()
                    &&& forall|j: int|
                        0 <= j < plan.rpcs@.len() ==> (#[trigger] plan.rpcs@[j]).is_async
                            == fns@[j].is_async
                    &&& forall|j: int|
                        0 <= j < plan.rpcs@.len() ==> rpc_of(
                            #[trigger] plan.rpcs@[j],
                            j as nat,
                            fns@[j],
                        )
                },
            },
        },
{
    let (type_ident, is_trait) = match item {
        ItemShape::Impl { self_type } => match self_type {
            TypeShape::Path(Some(seg)) => (seg.ident.clone(), false),
            TypeShape::Path(None) => return Err(Unsupported::EmptyPath),
            TypeShape::Other => return Err(Unsupported::UnsupportedImplType),
        },
        ItemShape::Trait { ident } => (ident.clone(), true),
        ItemShape::Other => return Err(Unsupported::UnsupportedItem),
    };
    let rpcs = match plan_signatures(fns) {
        Ok(rpcs) => rpcs,
        Err(problem) => return Err(problem),
    };
    let service_type = if is_trait {
        let mut n = String::from_str("Other");
        n.append(type_ident.as_str());
        n
    } else {
        type_ident.clone()
    };
    Ok(ImplPlan {
        request_enum: enum_name(options.request, &type_ident, "Request"),
        response_enum: enum_name(options.response, &type_ident, "Response"),
        error_enum: enum_name(options.error, &type_ident, "Error"),
        type_ident,
        rpcs,
        my_service: options.my_service,
        other_service: options.other_service,
        peer: options.peer,
        service_type,
        declare_service_type: is_trait,
    })
}

} // verus!
