use vstd::prelude::*;

use crate::error::MyError;

verus! {

/// The payload field that holds the text a point was embedded from.
pub open spec fn question_key() -> Seq<char> {
    "question"@
}

pub fn question_field() -> (r: &'static str)
    ensures
        r@ == question_key(),
{
    "question"
}

/// What to do with a collection of the same name that already exists.
#[derive(Clone, Copy, PartialEq, Eq, Structural, Debug)]
pub enum ReusePolicy {
    /// Delete it and create it anew, empty, with scalar quantization.
    Reset,
    /// Keep it and its points.
    Append,
}

/// A command to the vector store.
#[derive(Debug)]
pub enum StoreAction {
    Delete { name: String },
    /// Create a collection under cosine distance.
    Create { name: String, dimensions: u64, quantized: bool },
}

/// The vector store as this library sees it: for each collection name, its
/// dimension and the ids of its points.
pub type StoreModel = Map<Seq<char>, (nat, Set<u64>)>;

pub open spec fn apply_action(store: StoreModel, a: StoreAction) -> StoreModel {
    match a {
        StoreAction::Delete { name } => store.remove(name@),
        StoreAction::Create { name, dimensions, .. } => if store.contains_key(name@) {
            store
        } else {
            store.insert(name@, (dimensions as nat, Set::empty()))
        },
    }
}

pub open spec fn apply_actions(store: StoreModel, actions: Seq<StoreAction>) -> StoreModel
    decreases actions.len(),
{
    if actions.len() == 0 {
        store
    } else {
        apply_action(apply_actions(store, actions.drop_last()), actions.last())
    }
}

/// `actions` is the plan that makes sure of a collection: a new one is
/// created plain; an existing one is kept under `Append`, and under `Reset`
/// deleted and created again, quantized.
pub open spec fn is_ensure_plan(
    actions: Seq<StoreAction>,
    name: Seq<char>,
    dimensions: u64,
    exists: bool,
    policy: ReusePolicy,
) -> bool {
    if !exists {
        actions.len() == 1 && (actions[0] matches StoreAction::Create { name: n, dimensions: d, quantized: q }
            && n@ == name && d == dimensions && !q)
    } else if policy == ReusePolicy::Append {
        actions.len() == 0
    } else {
        actions.len() == 2 && (actions[0] matches StoreAction::Delete { name: n } && n@ == name) && (
        actions[1] matches StoreAction::Create { name: n, dimensions: d, quantized: q } && n@ == name
            && d == dimensions && q)
    }
}

/// The commands that make sure a collection `name` of `dimensions` exists,
/// given whether one of that name exists now.
pub fn ensure_collection_plan(name: &str, dimensions: u64, exists: bool, policy: ReusePolicy) -> (r:
    Vec<StoreAction>)
    ensures
        is_ensure_plan(r@, name@, dimensions, exists, policy),
{
    let mut r: Vec<StoreAction> = Vec::new();
    if !exists {
        r.push(StoreAction::Create { name: name.to_owned(), dimensions, quantized: false });
    } else if policy == ReusePolicy::Reset {
        r.push(StoreAction::Delete { name: name.to_owned() });
        r.push(StoreAction::Create { name: name.to_owned(), dimensions, quantized: true });
    }
    r
}

proof fn lemma_plan_result(
    store: StoreModel,
    actions: Seq<StoreAction>,
    name: Seq<char>,
    dimensions: u64,
    policy: ReusePolicy,
)
    requires
        is_ensure_plan(actions, name, dimensions, store.contains_key(name), policy),
    ensures
        apply_actions(store, actions).contains_key(name),
        policy == ReusePolicy::Reset ==> apply_actions(store, actions)[name] == (
            dimensions as nat,
            Set::<u64>::empty(),
        ),
        !store.contains_key(name) ==> apply_actions(store, actions)[name] == (
            dimensions as nat,
            Set::<u64>::empty(),
        ),
        policy == ReusePolicy::Append && store.contains_key(name) ==> apply_actions(store, actions)
            == store,
{
    if !store.contains_key(name) {
        assert(apply_actions(store, actions.drop_last()) == store);
        assert(actions.last() == actions[0]);
    } else if policy == ReusePolicy::Append {
    } else {
        let a1 = actions.drop_last();
        assert(apply_actions(store, a1.drop_last()) == store);
        assert(a1.last() == actions[0]);
        let s1 = apply_actions(store, a1);
        assert(s1 == store.remove(name));
        assert(actions.last() == actions[1]);
        assert(!s1.contains_key(name));
    }
}

/// Making sure of a collection twice in a row under `Reset` leaves it with
/// the asked dimension and no points, whatever the store held before.
pub proof fn lemma_ensure_twice_resets(
    store: StoreModel,
    name: Seq<char>,
    dimensions: u64,
    first: Seq<StoreAction>,
    second: Seq<StoreAction>,
)
    requires
        is_ensure_plan(first, name, dimensions, store.contains_key(name), ReusePolicy::Reset),
        is_ensure_plan(
            second,
            name,
            dimensions,
            apply_actions(store, first).contains_key(name),
            ReusePolicy::Reset,
        ),
    ensures
        apply_actions(apply_actions(store, first), second).contains_key(name),
        apply_actions(apply_actions(store, first), second)[name] == (
            dimensions as nat,
            Set::<u64>::empty(),
        ),
{
    lemma_plan_result(store, first, name, dimensions, ReusePolicy::Reset);
    lemma_plan_result(apply_actions(store, first), second, name, dimensions, ReusePolicy::Reset);
}

/// A point to store: its id, its vector and the text it came from.
#[derive(Debug)]
pub struct PointRecord<T> {
    pub id: u64,
    pub vector: T,
    pub question: String,
}

/// Pairs each embedding with its text; point `i` gets the id `i`.
pub fn build_points<T>(embeddings: Vec<T>, texts: &Vec<String>) -> (r: Result<
    Vec<PointRecord<T>>,
    MyError,
>)
    ensures
        r is Ok <==> embeddings@.len() == texts@.len(),
        r matches Err(e) ==> e == (MyError::Shape {
            expected: texts@.len() as usize,
            actual: embeddings@.len() as usize,
        }),
        r matches Ok(ps) ==> ps@.len() == embeddings@.len() && forall|i: int|
            0 <= i < ps@.len() ==> (#[trigger] ps@[i]).id == i && ps@[i].vector == embeddings@[i]
                && ps@[i].question@ == texts@[i]@,
{
    let n = embeddings.len();
    if n != texts.len() {
        return Err(MyError::Shape { expected: texts.len(), actual: n });
    }
    let mut rest = embeddings;
    let mut reversed: Vec<T> = Vec::new();
    while rest.len() > 0
        invariant
            rest@.len() + reversed@.len() == n,
            n == embeddings@.len(),
            rest@ == embeddings@.subrange(0, rest@.len() as int),
            forall|k: int|
                0 <= k < reversed@.len() ==> #[trigger] reversed@[k] == embeddings@[n - 1 - k],
        decreases rest@.len(),
    {
        let v = rest.pop().unwrap();
        reversed.push(v);
        proof {
            assert(rest@ =~= embeddings@.subrange(0, rest@.len() as int));
        }
    }
    let mut ps: Vec<PointRecord<T>> = Vec::new();
    let mut i: usize = 0;
    while i < n
        invariant
            i <= n,
            n == embeddings@.len(),
            n == texts@.len(),
            reversed@.len() == n - i,
            forall|k: int| 0 <= k < reversed@.len() ==> #[trigger] reversed@[k] == embeddings@[n - 1 - k],
            ps@.len() == i,
            forall|k: int|
                0 <= k < i ==> (#[trigger] ps@[k]).id == k && ps@[k].vector == embeddings@[k]
                    && ps@[k].question@ == texts@[k]@,
        decreases n - i,
    {
        let v = reversed.pop().unwrap();
        ps.push(PointRecord { id: i as u64, vector: v, question: texts[i].clone() });
        i += 1;
    }
    Ok(ps)
}

} // verus!
