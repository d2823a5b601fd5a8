//! Binding the arguments of the `UUID` constructor and of the time-based
//! generators to their parameters, following Python's rules for positional
//! and keyword arguments, and deciding when a call must go to the unpatched
//! standard-library function instead.
use vstd::prelude::*;

verus! {

/// Whether two byte strings are equal.
pub fn bytes_equal(a: &[u8], b: &[u8]) -> (res: bool)
    ensures
        res == (a@ == b@),
{
    if a.len() != b.len() {
        return false;
    }
    let mut i: usize = 0;
    while i < a.len()
        invariant
            a@.len() == b@.len(),
            i <= a@.len(),
            forall|j: int| 0 <= j < i ==> a@[j] == b@[j],
        decreases a@.len() - i,
    {
        if a[i] != b[i] {
            return false;
        }
        i += 1;
    }
    assert(a@ =~= b@);
    true
}

/// The keyword parameters of the `UUID` constructor.
#[derive(Clone, Copy, Debug, PartialEq, Eq, Structural)]
pub enum InitKeyword {
    Hex,
    Bytes,
    BytesLe,
    Fields,
    Int,
    Version,
    IsSafe,
    Other,
}

/// The keyword a name stands for.
pub open spec fn init_keyword_of(name: Seq<u8>) -> InitKeyword {
    if name == seq![104u8, 101u8, 120u8] {
        InitKeyword::Hex
    } else if name == seq![98u8, 121u8, 116u8, 101u8, 115u8] {
        InitKeyword::Bytes
    } else if name == seq![98u8, 121u8, 116u8, 101u8, 115u8, 95u8, 108u8, 101u8] {
        InitKeyword::BytesLe
    } else if name == seq![102u8, 105u8, 101u8, 108u8, 100u8, 115u8] {
        InitKeyword::Fields
    } else if name == seq![105u8, 110u8, 116u8] {
        InitKeyword::Int
    } else if name == seq![118u8, 101u8, 114u8, 115u8, 105u8, 111u8, 110u8] {
        InitKeyword::Version
    } else if name == seq![105u8, 115u8, 95u8, 115u8, 97u8, 102u8, 101u8] {
        InitKeyword::IsSafe
    } else {
        InitKeyword::Other
    }
}

/// Classifies a keyword name given as UTF-8 bytes: `hex`, `bytes`,
/// `bytes_le`, `fields`, `int`, `version`, `is_safe`, or another name.
pub fn classify_init_keyword(name: &[u8]) -> (res: InitKeyword)
    ensures
        res == init_keyword_of(name@),
{
    let hex_name: Vec<u8> = vec![104u8, 101u8, 120u8];
    let bytes_name: Vec<u8> = vec![98u8, 121u8, 116u8, 101u8, 115u8];
    let bytes_le_name: Vec<u8> = vec![98u8, 121u8, 116u8, 101u8, 115u8, 95u8, 108u8, 101u8];
    let fields_name: Vec<u8> = vec![102u8, 105u8, 101u8, 108u8, 100u8, 115u8];
    let int_name: Vec<u8> = vec![105u8, 110u8, 116u8];
    let version_name: Vec<u8> = vec![118u8, 101u8, 114u8, 115u8, 105u8, 111u8, 110u8];
    let is_safe_name: Vec<u8> = vec![105u8, 115u8, 95u8, 115u8, 97u8, 102u8, 101u8];
    if bytes_equal(name, hex_name.as_slice()) {
        InitKeyword::Hex
    } else if bytes_equal(name, bytes_name.as_slice()) {
        InitKeyword::Bytes
    } else if bytes_equal(name, bytes_le_name.as_slice()) {
        InitKeyword::BytesLe
    } else if bytes_equal(name, fields_name.as_slice()) {
        InitKeyword::Fields
    } else if bytes_equal(name, int_name.as_slice()) {
        InitKeyword::Int
    } else if bytes_equal(name, version_name.as_slice()) {
        InitKeyword::Version
    } else if bytes_equal(name, is_safe_name.as_slice()) {
        InitKeyword::IsSafe
    } else {
        InitKeyword::Other
    }
}

/// The parameter slot a keyword fills: 0 `hex`, 1 `bytes`, 2 `bytes_le`,
/// 3 `fields`, 4 `int`, 5 `version`; `None` for `is_safe` and other names.
pub open spec fn init_slot_of(k: InitKeyword) -> Option<int> {
    match k {
        InitKeyword::Hex => Some(0),
        InitKeyword::Bytes => Some(1),
        InitKeyword::BytesLe => Some(2),
        InitKeyword::Fields => Some(3),
        InitKeyword::Int => Some(4),
        InitKeyword::Version => Some(5),
        _ => None,
    }
}

/// The six slots as the positional arguments fill them: slot `k` holds
/// argument `k + 1` when it was passed and is not `None`.
pub open spec fn positional_slots(positional_count: nat, arg_is_none: Seq<bool>) -> Seq<
    Option<usize>,
> {
    Seq::new(
        6,
        |k: int|
            if k + 1 < positional_count && !arg_is_none[k + 1] {
                Some((k + 1) as usize)
            } else {
                None
            },
    )
}

/// Which of the six slots the positional arguments give, `None` or not.
pub open spec fn positional_given(positional_count: nat) -> Seq<bool> {
    Seq::new(6, |k: int| k + 1 < positional_count)
}

/// The slots after the keyword arguments from index `j` on are bound, or
/// `None` when a keyword is unknown, is `is_safe`, or names a slot that was
/// already given (`given`), positionally or by keyword, even as `None`. A
/// keyword argument whose value is `None` leaves its slot empty.
pub open spec fn bind_init_keywords(
    slots: Seq<Option<usize>>,
    given: Seq<bool>,
    keywords: Seq<InitKeyword>,
    arg_is_none: Seq<bool>,
    positional_count: nat,
    j: nat,
) -> Option<Seq<Option<usize>>>
    decreases keywords.len() - j,
{
    if j >= keywords.len() {
        Some(slots)
    } else {
        match init_slot_of(keywords[j as int]) {
            None => None,
            Some(s) => if given[s] {
                None
            } else {
                let index = positional_count + j;
                let slot = if arg_is_none[index as int] {
                    None
                } else {
                    Some(index as usize)
                };
                bind_init_keywords(
                    slots.update(s, slot),
                    given.update(s, true),
                    keywords,
                    arg_is_none,
                    positional_count,
                    j + 1,
                )
            },
        }
    }
}

/// The source a `UUID` is built from.
#[derive(Clone, Copy, Debug, PartialEq, Eq, Structural)]
pub enum InitSource {
    Hex,
    Bytes,
    BytesLe,
    Fields,
    Int,
}

/// How the arguments of a `UUID` constructor call are bound.
#[derive(Clone, Copy, Debug, PartialEq, Eq, Structural)]
pub enum InitBinding {
    /// Hand the call to the unpatched standard-library function.
    CallUnpatched,
    /// Build from the argument at `source_index`, of kind `source`, with the
    /// `version` argument at `version_index` when one was given.
    Bound { source: InitSource, source_index: usize, version_index: Option<usize> },
}

/// The source kind of a slot.
pub open spec fn source_of_slot(s: int) -> InitSource {
    if s == 0 {
        InitSource::Hex
    } else if s == 1 {
        InitSource::Bytes
    } else if s == 2 {
        InitSource::BytesLe
    } else if s == 3 {
        InitSource::Fields
    } else {
        InitSource::Int
    }
}

/// The number of filled slots among the first `n`.
pub open spec fn filled_count(slots: Seq<Option<usize>>, n: int) -> nat
    decreases n,
{
    if n <= 0 {
        0
    } else {
        filled_count(slots, n - 1) + if slots[n - 1] is Some {
            1nat
        } else {
            0nat
        }
    }
}

/// The binding of a `UUID` constructor call with `positional_count`
/// positional arguments (the first being `self`), then one argument per
/// keyword: from one to seven positional arguments, keywords bound as
/// `bind_init_keywords` says, and exactly one of `hex`, `bytes`, `bytes_le`,
/// `fields` and `int` given.
pub open spec fn init_binding(
    positional_count: nat,
    keywords: Seq<InitKeyword>,
    arg_is_none: Seq<bool>,
) -> InitBinding {
    if positional_count == 0 || positional_count > 7 {
        InitBinding::CallUnpatched
    } else {
        match bind_init_keywords(
            positional_slots(positional_count, arg_is_none),
            positional_given(positional_count),
            keywords,
            arg_is_none,
            positional_count,
            0,
        ) {
            None => InitBinding::CallUnpatched,
            Some(slots) => if filled_count(slots, 5) != 1 {
                InitBinding::CallUnpatched
            } else {
                let s = choose|s: int| 0 <= s < 5 && slots[s] is Some;
                InitBinding::Bound {
                    source: source_of_slot(s),
                    source_index: slots[s].unwrap(),
                    version_index: slots[5],
                }
            },
        }
    }
}

proof fn lemma_filled_count_one(slots: Seq<Option<usize>>, s: int)
    requires
        slots.len() == 6,
        0 <= s < 5,
        slots[s] is Some,
        forall|t: int| 0 <= t < 5 && t != s ==> slots[t] is None,
    ensures
        filled_count(slots, 5) == 1,
        forall|t: int| 0 <= t < 5 && slots[t] is Some ==> t == s,
{
    reveal_with_fuel(filled_count, 6);
}

proof fn lemma_filled_count_not_one(slots: Seq<Option<usize>>, s: int, t: int)
    requires
        slots.len() == 6,
        0 <= s < t < 5,
        slots[s] is Some,
        slots[t] is Some,
    ensures
        filled_count(slots, 5) >= 2,
{
    reveal_with_fuel(filled_count, 6);
}

proof fn lemma_filled_count_zero(slots: Seq<Option<usize>>)
    requires
        slots.len() == 6,
        forall|t: int| 0 <= t < 5 ==> slots[t] is None,
    ensures
        filled_count(slots, 5) == 0,
{
    reveal_with_fuel(filled_count, 6);
}

/// Binds the arguments of a `UUID` constructor call; `arg_is_none[i]` says
/// whether argument `i` (positional ones first, then one per keyword) is
/// `None`.
pub fn bind_init_arguments(
    positional_count: usize,
    keywords: &Vec<InitKeyword>,
    arg_is_none: &Vec<bool>,
) -> (res: InitBinding)
    requires
        arg_is_none@.len() == positional_count + keywords@.len(),
    ensures
        res == init_binding(positional_count as nat, keywords@, arg_is_none@),
{
    if positional_count == 0 || positional_count > 7 {
        return InitBinding::CallUnpatched;
    }
    let mut slots: Vec<Option<usize>> = Vec::new();
    let mut given: Vec<bool> = Vec::new();
    let mut k: usize = 0;
    while k < 6
        invariant
            1 <= positional_count <= 7,
            arg_is_none@.len() == positional_count + keywords@.len(),
            k <= 6,
            slots@.len() == k,
            given@.len() == k,
            forall|t: int|
                0 <= t < k ==> #[trigger] slots@[t] == positional_slots(
                    positional_count as nat,
                    arg_is_none@,
                )[t],
            forall|t: int|
                0 <= t < k ==> #[trigger] given@[t] == positional_given(positional_count as nat)[t],
        decreases 6 - k,
    {
        if k + 1 < positional_count && !arg_is_none[k + 1] {
            slots.push(Some(k + 1));
        } else {
            slots.push(None);
        }
        given.push(k + 1 < positional_count);
        k += 1;
    }
    assert(slots@ =~= positional_slots(positional_count as nat, arg_is_none@));
    assert(given@ =~= positional_given(positional_count as nat));
    let ghost initial = slots@;
    let ghost initial_given = given@;
    let nkw = keywords.len();
    let total = arg_is_none.len();
    let mut j: usize = 0;
    while j < nkw
        invariant
            1 <= positional_count <= 7,
            total == arg_is_none@.len(),
            initial == positional_slots(positional_count as nat, arg_is_none@),
            initial_given == positional_given(positional_count as nat),
            nkw == keywords@.len(),
            arg_is_none@.len() == positional_count + keywords@.len(),
            j <= nkw,
            slots@.len() == 6,
            given@.len() == 6,
            bind_init_keywords(initial, initial_given, keywords@, arg_is_none@, positional_count as nat, 0)
                == bind_init_keywords(
                slots@,
                given@,
                keywords@,
                arg_is_none@,
                positional_count as nat,
                j as nat,
            ),
        decreases nkw - j,
    {
        let slot: usize = match keywords[j] {
            InitKeyword::Hex => 0,
            InitKeyword::Bytes => 1,
            InitKeyword::BytesLe => 2,
            InitKeyword::Fields => 3,
            InitKeyword::Int => 4,
            InitKeyword::Version => 5,
            _ => {
                assert(init_slot_of(keywords@[j as int]) is None);
                assert(bind_init_keywords(
                    slots@,
                    given@,
                    keywords@,
                    arg_is_none@,
                    positional_count as nat,
                    j as nat,
                ) is None);
                return InitBinding::CallUnpatched;
            },
        };
        assert(init_slot_of(keywords@[j as int]) == Some(slot as int));
        if given[slot] {
            assert(bind_init_keywords(
                slots@,
                given@,
                keywords@,
                arg_is_none@,
                positional_count as nat,
                j as nat,
            ) is None);
            return InitBinding::CallUnpatched;
        }
        let index = positional_count + j;
        let value = if arg_is_none[index] {
            None
        } else {
            Some(index)
        };
        slots.set(slot, value);
        given.set(slot, true);
        j += 1;
    }
    let ghost bound = slots@;
    assert(bind_init_keywords(initial, initial_given, keywords@, arg_is_none@, positional_count as nat, 0) == Some(
        bound,
    ));
    let mut found: Option<(usize, usize)> = None;
    let mut s: usize = 0;
    while s < 5
        invariant
            slots@ == bound,
            bound.len() == 6,
            1 <= positional_count <= 7,
            bind_init_keywords(initial, initial_given, keywords@, arg_is_none@, positional_count as nat, 0) == Some(
                bound,
            ),
            initial == positional_slots(positional_count as nat, arg_is_none@),
            initial_given == positional_given(positional_count as nat),
            s <= 5,
            found matches Some(p) ==> p.0 < s && bound[p.0 as int] == Some(p.1) && forall|t: int|
                0 <= t < s && t != p.0 ==> bound[t] is None,
            found is None ==> forall|t: int| 0 <= t < s ==> bound[t] is None,
        decreases 5 - s,
    {
        if let Some(index) = slots[s] {
            match found {
                Some(p) => {
                    proof {
                        lemma_filled_count_not_one(bound, p.0 as int, s as int);
                    }
                    return InitBinding::CallUnpatched;
                },
                None => {
                    found = Some((s, index));
                },
            }
        }
        s += 1;
    }
    match found {
        None => {
            proof {
                lemma_filled_count_zero(bound);
            }
            InitBinding::CallUnpatched
        },
        Some(p) => {
            let f = p.0;
            proof {
                lemma_filled_count_one(bound, f as int);
                assert(0 <= f < 5 && bound[f as int] is Some);
            }
            let source = if f == 0 {
                InitSource::Hex
            } else if f == 1 {
                InitSource::Bytes
            } else if f == 2 {
                InitSource::BytesLe
            } else if f == 3 {
                InitSource::Fields
            } else {
                InitSource::Int
            };
            InitBinding::Bound { source, source_index: p.1, version_index: slots[5] }
        },
    }
}

/// The keyword parameters of `uuid1` and `uuid6`.
#[derive(Clone, Copy, Debug, PartialEq, Eq, Structural)]
pub enum TimeKeyword {
    Node,
    ClockSeq,
    Other,
}

/// The keyword a name stands for.
pub open spec fn time_keyword_of(name: Seq<u8>) -> TimeKeyword {
    if name == seq![110u8, 111u8, 100u8, 101u8] {
        TimeKeyword::Node
    } else if name == seq![99u8, 108u8, 111u8, 99u8, 107u8, 95u8, 115u8, 101u8, 113u8] {
        TimeKeyword::ClockSeq
    } else {
        TimeKeyword::Other
    }
}

/// Classifies a keyword name given as UTF-8 bytes: `node`, `clock_seq`, or
/// another name.
pub fn classify_time_keyword(name: &[u8]) -> (res: TimeKeyword)
    ensures
        res == time_keyword_of(name@),
{
    let node_name: Vec<u8> = vec![110u8, 111u8, 100u8, 101u8];
    let clock_seq_name: Vec<u8> = vec![99u8, 108u8, 111u8, 99u8, 107u8, 95u8, 115u8, 101u8, 113u8];
    if bytes_equal(name, node_name.as_slice()) {
        TimeKeyword::Node
    } else if bytes_equal(name, clock_seq_name.as_slice()) {
        TimeKeyword::ClockSeq
    } else {
        TimeKeyword::Other
    }
}

/// Where the `node` and `clock_seq` arguments of a time-based generator
/// are: the index of each supplied argument (positional ones first, then one
/// per keyword), whether or not its value is `None`.
#[derive(Clone, Copy, Debug, PartialEq, Eq, Structural)]
pub struct TimeArguments {
    pub node_index: Option<usize>,
    pub clock_seq_index: Option<usize>,
}

/// The binding after the keyword arguments from index `j` on; `None` for an
/// unknown keyword or a parameter supplied twice.
pub open spec fn bind_time_keywords(
    bound: TimeArguments,
    keywords: Seq<TimeKeyword>,
    positional_count: nat,
    j: nat,
) -> Option<TimeArguments>
    decreases keywords.len() - j,
{
    if j >= keywords.len() {
        Some(bound)
    } else {
        let index = (positional_count + j) as usize;
        match keywords[j as int] {
            TimeKeyword::Node => if bound.node_index is Some {
                None
            } else {
                bind_time_keywords(
                    TimeArguments { node_index: Some(index), ..bound },
                    keywords,
                    positional_count,
                    j + 1,
                )
            },
            TimeKeyword::ClockSeq => if bound.clock_seq_index is Some {
                None
            } else {
                bind_time_keywords(
                    TimeArguments { clock_seq_index: Some(index), ..bound },
                    keywords,
                    positional_count,
                    j + 1,
                )
            },
            TimeKeyword::Other => None,
        }
    }
}

/// The positional `node` and `clock_seq` arguments.
pub open spec fn positional_time_arguments(positional_count: nat) -> TimeArguments {
    TimeArguments {
        node_index: if positional_count >= 1 {
            Some(0)
        } else {
            None
        },
        clock_seq_index: if positional_count >= 2 {
            Some(1)
        } else {
            None
        },
    }
}

/// The binding of a `uuid1(node=None, clock_seq=None)` or `uuid6(..)` call:
/// at most two positional and two keyword arguments, bound in order.
pub open spec fn time_binding(positional_count: nat, keywords: Seq<TimeKeyword>) -> Option<
    TimeArguments,
> {
    if positional_count > 2 || keywords.len() > 2 {
        None
    } else {
        bind_time_keywords(positional_time_arguments(positional_count), keywords, positional_count, 0)
    }
}

/// Binds the arguments of a time-based generator; `None` means the call
/// goes to the unpatched standard-library function.
pub fn parse_node_and_clock_seq(positional_count: usize, keywords: &Vec<TimeKeyword>) -> (res:
    Option<TimeArguments>)
    ensures
        res == time_binding(positional_count as nat, keywords@),
{
    let nkw = keywords.len();
    if positional_count > 2 || nkw > 2 {
        return None;
    }
    let mut bound = TimeArguments {
        node_index: if positional_count >= 1 {
            Some(0)
        } else {
            None
        },
        clock_seq_index: if positional_count >= 2 {
            Some(1)
        } else {
            None
        },
    };
    let ghost initial = bound;
    assert(initial == positional_time_arguments(positional_count as nat));
    let mut j: usize = 0;
    while j < nkw
        invariant
            initial == positional_time_arguments(positional_count as nat),
            nkw == keywords@.len(),
            nkw <= 2,
            positional_count <= 2,
            j <= nkw,
            bind_time_keywords(initial, keywords@, positional_count as nat, 0) == bind_time_keywords(
                bound,
                keywords@,
                positional_count as nat,
                j as nat,
            ),
        decreases nkw - j,
    {
        let index = positional_count + j;
        match keywords[j] {
            TimeKeyword::Node => {
                if bound.node_index.is_some() {
                    return None;
                }
                bound = TimeArguments { node_index: Some(index), ..bound };
            },
            TimeKeyword::ClockSeq => {
                if bound.clock_seq_index.is_some() {
                    return None;
                }
                bound = TimeArguments { clock_seq_index: Some(index), ..bound };
            },
            TimeKeyword::Other => {
                return None;
            },
        }
        j += 1;
    }
    Some(bound)
}

/// The parameter slot of a source: 0 `hex`, 1 `bytes`, 2 `bytes_le`,
/// 3 `fields`, 4 `int`.
pub open spec fn slot_of_source(source: InitSource) -> int {
    match source {
        InitSource::Hex => 0,
        InitSource::Bytes => 1,
        InitSource::BytesLe => 2,
        InitSource::Fields => 3,
        InitSource::Int => 4,
    }
}

/// Whether argument `i` of a call with `positional_count` positional
/// arguments (the first being `self`) and then `keywords` is passed for
/// parameter slot `s`: positionally as argument `s + 1`, or by the keyword
/// of that slot.
pub open spec fn argument_names_slot(
    positional_count: nat,
    keywords: Seq<InitKeyword>,
    i: int,
    s: int,
) -> bool {
    if i < positional_count {
        i == s + 1
    } else {
        0 <= i - positional_count < keywords.len() && init_slot_of(
            keywords[i - positional_count],
        ) == Some(s)
    }
}

/// What the keyword binding puts in a slot comes from the slot as it was or
/// from a later keyword of that slot whose value is not `None`.
proof fn lemma_bound_slots_come_from_arguments(
    slots: Seq<Option<usize>>,
    given: Seq<bool>,
    keywords: Seq<InitKeyword>,
    arg_is_none: Seq<bool>,
    positional_count: nat,
    j: nat,
)
    requires
        slots.len() == 6,
        given.len() == 6,
        arg_is_none.len() == positional_count + keywords.len(),
        positional_count + keywords.len() <= usize::MAX,
        bind_init_keywords(slots, given, keywords, arg_is_none, positional_count, j) is Some,
    ensures
        ({
            let res = bind_init_keywords(slots, given, keywords, arg_is_none, positional_count, j)->0;
            &&& res.len() == 6
            &&& forall|s: int|
                0 <= s < 6 && (#[trigger] res[s]) is Some ==> res[s] == slots[s] || ({
                    let i = res[s]->0 as int;
                    &&& positional_count + j <= i < positional_count + keywords.len()
                    &&& init_slot_of(keywords[i - positional_count]) == Some(s)
                    &&& !arg_is_none[i]
                })
        }),
    decreases keywords.len() - j,
{
    if j < keywords.len() {
        let s = init_slot_of(keywords[j as int])->0;
        let index = positional_count + j;
        let slot = if arg_is_none[index as int] {
            None
        } else {
            Some(index as usize)
        };
        lemma_bound_slots_come_from_arguments(
            slots.update(s, slot),
            given.update(s, true),
            keywords,
            arg_is_none,
            positional_count,
            j + 1,
        );
    }
}

/// Every argument that is not `None`, already in a slot or passed by a
/// keyword from index `j` on, ends up in its slot.
proof fn lemma_arguments_reach_slots(
    slots: Seq<Option<usize>>,
    given: Seq<bool>,
    keywords: Seq<InitKeyword>,
    arg_is_none: Seq<bool>,
    positional_count: nat,
    j: nat,
)
    requires
        slots.len() == 6,
        given.len() == 6,
        forall|t: int| 0 <= t < 6 && (#[trigger] slots[t]) is Some ==> given[t],
        arg_is_none.len() == positional_count + keywords.len(),
        bind_init_keywords(slots, given, keywords, arg_is_none, positional_count, j) is Some,
    ensures
        ({
            let res = bind_init_keywords(slots, given, keywords, arg_is_none, positional_count, j)->0;
            &&& res.len() == 6
            &&& forall|t: int| 0 <= t < 6 && (#[trigger] slots[t]) is Some ==> res[t] is Some
            &&& forall|k: int|
                j <= k < keywords.len() && !arg_is_none[positional_count + k] && (#[trigger] init_slot_of(
                    keywords[k],
                )) is Some ==> res[init_slot_of(keywords[k])->0] is Some
        }),
    decreases keywords.len() - j,
{
    if j < keywords.len() {
        let s = init_slot_of(keywords[j as int])->0;
        let index = positional_count + j;
        let slot = if arg_is_none[index as int] {
            None
        } else {
            Some(index as usize)
        };
        let slots2 = slots.update(s, slot);
        let given2 = given.update(s, true);
        assert(!given[s]);
        assert forall|t: int| 0 <= t < 6 && (#[trigger] slots2[t]) is Some implies given2[t] by {
            if t != s {
                assert(slots2[t] == slots[t]);
            }
        }
        lemma_arguments_reach_slots(slots2, given2, keywords, arg_is_none, positional_count, j + 1);
        let res = bind_init_keywords(slots2, given2, keywords, arg_is_none, positional_count, j + 1)->0;
        assert forall|t: int| 0 <= t < 6 && (#[trigger] slots[t]) is Some implies res[t] is Some by {
            assert(t != s);
            assert(slots2[t] == slots[t]);
        }
        if !arg_is_none[index as int] {
            assert(slots2[s] is Some);
        }
    }
}

/// The argument a `UUID(...)` call builds from, and its `version` argument,
/// are ones passed for those very parameters, positionally or by keyword,
/// and are not `None`.
pub proof fn lemma_init_arguments_bind_by_name(
    positional_count: nat,
    keywords: Seq<InitKeyword>,
    arg_is_none: Seq<bool>,
)
    requires
        arg_is_none.len() == positional_count + keywords.len(),
        positional_count + keywords.len() <= usize::MAX,
    ensures
        init_binding(positional_count, keywords, arg_is_none) matches InitBinding::Bound {
            source,
            source_index,
            version_index,
        } ==> {
            &&& argument_names_slot(positional_count, keywords, source_index as int, slot_of_source(source))
            &&& !arg_is_none[source_index as int]
            &&& version_index matches Some(i) ==> argument_names_slot(positional_count, keywords, i as int, 5)
                && !arg_is_none[i as int]
            &&& forall|i: int, t: int|
                0 <= i < arg_is_none.len() && 0 <= t < 5 && t != slot_of_source(source)
                    && #[trigger] argument_names_slot(positional_count, keywords, i, t) ==> arg_is_none[i]
        },
{
    if 1 <= positional_count <= 7 {
        let initial = positional_slots(positional_count, arg_is_none);
        let given = positional_given(positional_count);
        if bind_init_keywords(initial, given, keywords, arg_is_none, positional_count, 0) is Some {
            lemma_bound_slots_come_from_arguments(initial, given, keywords, arg_is_none, positional_count, 0);
            lemma_arguments_reach_slots(initial, given, keywords, arg_is_none, positional_count, 0);
            let slots = bind_init_keywords(initial, given, keywords, arg_is_none, positional_count, 0)->0;
            if filled_count(slots, 5) == 1 {
                if forall|t: int| 0 <= t < 5 ==> slots[t] is None {
                    lemma_filled_count_zero(slots);
                }
                let s = choose|s: int| 0 <= s < 5 && slots[s] is Some;
                assert(slot_of_source(source_of_slot(s)) == s);
                assert forall|t: int| 0 <= t < 5 && t != s implies slots[t] is None by {
                    if slots[t] is Some {
                        if s < t {
                            lemma_filled_count_not_one(slots, s, t);
                        } else {
                            lemma_filled_count_not_one(slots, t, s);
                        }
                    }
                }
                assert forall|i: int, t: int|
                    0 <= i < arg_is_none.len() && 0 <= t < 5 && t != s
                        && #[trigger] argument_names_slot(positional_count, keywords, i, t)
                    implies arg_is_none[i] by {
                    if !arg_is_none[i] {
                        if i < positional_count {
                            assert(initial[t] is Some);
                        } else {
                            let k = i - positional_count;
                            assert(init_slot_of(keywords[k]) == Some(t));
                        }
                    }
                }
            }
        }
    }
}

/// Every argument of a `uuid1` or `uuid6` call binds the parameter it names:
/// the first positional argument `node`, the second `clock_seq`, and a
/// keyword argument the parameter of its name; a parameter supplied neither
/// way is absent. A call binds exactly when it has at most two positional
/// and two keyword arguments, every keyword is `node` or `clock_seq`, and no
/// parameter is supplied twice.
pub proof fn lemma_time_arguments_bind_by_name(positional_count: nat, keywords: Seq<TimeKeyword>)
    ensures
        time_binding(positional_count, keywords) is Some <==> {
            &&& positional_count <= 2
            &&& keywords.len() <= 2
            &&& forall|j: int| 0 <= j < keywords.len() ==> #[trigger] keywords[j] != TimeKeyword::Other
            &&& forall|j: int|
                0 <= j < keywords.len() && #[trigger] keywords[j] == TimeKeyword::Node
                    ==> positional_count < 1
            &&& forall|j: int|
                0 <= j < keywords.len() && #[trigger] keywords[j] == TimeKeyword::ClockSeq
                    ==> positional_count < 2
            &&& forall|i: int, j: int|
                0 <= i < j < keywords.len() ==> keywords[i] != keywords[j]
        },
        time_binding(positional_count, keywords) matches Some(t) ==> {
            &&& forall|j: int|
                0 <= j < keywords.len() && #[trigger] keywords[j] == TimeKeyword::Node
                    ==> t.node_index == Some((positional_count + j) as usize)
            &&& forall|j: int|
                0 <= j < keywords.len() && #[trigger] keywords[j] == TimeKeyword::ClockSeq
                    ==> t.clock_seq_index == Some((positional_count + j) as usize)
            &&& positional_count >= 1 ==> t.node_index == Some(0usize)
            &&& positional_count >= 2 ==> t.clock_seq_index == Some(1usize)
            &&& (positional_count < 1 && forall|j: int|
                0 <= j < keywords.len() ==> keywords[j] != TimeKeyword::Node) ==> t.node_index
                is None
            &&& (positional_count < 2 && forall|j: int|
                0 <= j < keywords.len() ==> keywords[j] != TimeKeyword::ClockSeq)
                ==> t.clock_seq_index is None
        },
{
    reveal_with_fuel(bind_time_keywords, 3);
    if positional_count <= 2 && keywords.len() <= 2 {
        if keywords.len() == 2 {
            assert(keywords[0] == keywords[0]);
            assert(keywords[1] == keywords[1]);
        } else if keywords.len() == 1 {
            assert(keywords[0] == keywords[0]);
        }
    }
}

} // verus!
