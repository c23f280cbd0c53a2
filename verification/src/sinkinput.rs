//! Snapshots of the server's sink inputs and the matching of their
//! process-id property against a target process id.
//!
//! The server tags each stream with a string-valued property naming the
//! owning process. The tag is parsed exactly as Rust's `u32` parser does for
//! plain decimal input: an optional leading `+`, then one or more ASCII
//! digits whose value fits in a `u32`. A missing or malformed tag means "no
//! match", never an error.

use vstd::prelude::*;

verus! {

/// The server's maximum number of channels in one volume vector; a caller
/// converting a server-side snapshot clamps the vector to this length.
pub const PA_CHANNELS_MAX: usize = 32;

/// One sink input exactly as the enumeration callback delivers it: the
/// server-assigned index, the raw process-id property (if the stream has
/// one), the mute flag and the per-channel volume vector.
#[derive(Debug, Clone, PartialEq, Eq)]
pub struct SinkInputItem {
    pub index: u32,
    pub pid_prop: Option<String>,
    pub mute: bool,
    pub volumes: Vec<u32>,
}

/// Mathematical image of a [`SinkInputItem`].
#[verifier::ext_equal]
pub struct SinkInputItemView {
    pub index: u32,
    pub pid_prop: Option<Seq<char>>,
    pub mute: bool,
    pub volumes: Seq<u32>,
}

impl View for SinkInputItem {
    type V = SinkInputItemView;

    open spec fn view(&self) -> SinkInputItemView {
        SinkInputItemView {
            index: self.index,
            pid_prop: match self.pid_prop {
                Option::Some(s) => Option::Some(s@),
                Option::None => Option::None,
            },
            mute: self.mute,
            volumes: self.volumes@,
        }
    }
}

/// A sink input after its property tag has been parsed: the point-in-time
/// snapshot the applier works on.
#[derive(Debug, Clone, PartialEq, Eq)]
pub struct SinkInput {
    pub index: u32,
    pub pid_tag: Option<u32>,
    pub mute: bool,
    pub volumes: Vec<u32>,
}

/// Mathematical image of a [`SinkInput`].
#[verifier::ext_equal]
pub struct SinkInputView {
    pub index: u32,
    pub pid_tag: Option<u32>,
    pub mute: bool,
    pub volumes: Seq<u32>,
}

impl View for SinkInput {
    type V = SinkInputView;

    open spec fn view(&self) -> SinkInputView {
        SinkInputView {
            index: self.index,
            pid_tag: self.pid_tag,
            mute: self.mute,
            volumes: self.volumes@,
        }
    }
}

/// Views of a sequence of items.
pub open spec fn item_views(s: Seq<SinkInputItem>) -> Seq<SinkInputItemView> {
    s.map_values(|x: SinkInputItem| x@)
}

/// Views of a sequence of parsed sink inputs.
pub open spec fn input_views(s: Seq<SinkInput>) -> Seq<SinkInputView> {
    s.map_values(|x: SinkInput| x@)
}

/// An ASCII decimal digit.
pub open spec fn is_ascii_digit(c: char) -> bool {
    48 <= c as u32 <= 57
}

/// Numeric value of an ASCII digit.
pub open spec fn digit_value(c: char) -> int {
    c as u32 - 48
}

/// Value of a digit string read from the left.
pub open spec fn digits_value(s: Seq<char>) -> int
    decreases s.len(),
{
    if s.len() == 0 {
        0
    } else {
        digits_value(s.drop_last()) * 10 + digit_value(s.last())
    }
}

/// Every character is an ASCII digit.
pub open spec fn all_ascii_digits(s: Seq<char>) -> bool {
    forall|i: int| 0 <= i < s.len() ==> is_ascii_digit(#[trigger] s[i])
}

/// What `str::parse::<u32>` returns on the string: after an optional leading
/// `+`, at least one ASCII digit must follow and the value must fit in a
/// `u32`; anything else is rejected.
pub open spec fn spec_parse_u32(s: Seq<char>) -> Option<u32> {
    let digits = if s.len() > 0 && s[0] == '+' {
        s.drop_first()
    } else {
        s
    };
    if digits.len() > 0 && all_ascii_digits(digits) && digits_value(digits) <= u32::MAX {
        Option::Some(digits_value(digits) as u32)
    } else {
        Option::None
    }
}

/// A digit string's value is never negative.
proof fn lemma_digits_value_nonneg(s: Seq<char>)
    requires
        all_ascii_digits(s),
    ensures
        digits_value(s) >= 0,
    decreases s.len(),
{
    if s.len() > 0 {
        lemma_digits_value_nonneg(s.drop_last());
    }
}

/// Reading more digits can only grow the value.
proof fn lemma_digits_value_prefix(s: Seq<char>, k: int)
    requires
        all_ascii_digits(s),
        0 <= k <= s.len(),
    ensures
        digits_value(s.take(k)) <= digits_value(s),
    decreases s.len() - k,
{
    if k == s.len() {
        assert(s.take(k) =~= s);
    } else {
        lemma_digits_value_prefix(s, k + 1);
        let t = s.take(k + 1);
        assert(t.drop_last() =~= s.take(k));
        assert(t.last() == s[k]);
        lemma_digits_value_nonneg(s.take(k));
    }
}

/// Parses a process-id property tag, as `str::parse::<u32>` would.
pub fn parse_pid_tag(s: &str) -> (r: Option<u32>)
    ensures
        r == spec_parse_u32(s@),
{
    let len: usize = s.unicode_len();
    if len == 0 {
        return Option::None;
    }
    let first: char = s.get_char(0);
    let start: usize = if first == '+' {
        1
    } else {
        0
    };
    let ghost digits = if s@[0] == '+' {
        s@.drop_first()
    } else {
        s@
    };
    proof {
        assert(digits =~= s@.subrange(start as int, len as int));
    }
    if start == len {
        return Option::None;
    }
    let mut acc: u64 = 0;
    let mut i: usize = start;
    while i < len
        invariant
            start <= i <= len,
            len == s@.len(),
            len > 0,
            start == if s@[0] == '+' { 1int } else { 0int },
            digits =~= s@.subrange(start as int, len as int),
            all_ascii_digits(s@.subrange(start as int, i as int)),
            acc == digits_value(s@.subrange(start as int, i as int)),
            acc <= u32::MAX,
        decreases len - i,
    {
        let c: char = s.get_char(i);
        let cv: u32 = c as u32;
        if cv < 48 || cv > 57 {
            proof {
                assert(digits[i - start] == s@[i as int]);
                assert(!all_ascii_digits(digits));
            }
            return Option::None;
        }
        let d: u64 = (cv - 48) as u64;
        let next: u64 = acc * 10 + d;
        proof {
            let t = s@.subrange(start as int, (i + 1) as int);
            assert(t.drop_last() =~= s@.subrange(start as int, i as int));
            assert(t.last() == s@[i as int]);
            assert(next == digits_value(t));
            assert(forall|j: int| 0 <= j < t.len() ==> is_ascii_digit(#[trigger] t[j]));
        }
        if next > u32::MAX as u64 {
            proof {
                if all_ascii_digits(digits) {
                    assert(digits.take(i + 1 - start) =~= s@.subrange(
                        start as int,
                        (i + 1) as int,
                    ));
                    lemma_digits_value_prefix(digits, i + 1 - start);
                    assert(digits_value(digits) >= next);
                }
                assert(digits == if s@.len() > 0 && s@[0] == '+' {
                    s@.drop_first()
                } else {
                    s@
                });
                assert(spec_parse_u32(s@) is None);
            }
            return Option::None;
        }
        acc = next;
        i = i + 1;
    }
    proof {
        assert(digits =~= s@.subrange(start as int, i as int));
    }
    Option::Some(acc as u32)
}

/// The parsed process-id tag of an item: `None` when the property is absent
/// or malformed.
pub open spec fn spec_tag_of(it: SinkInputItemView) -> Option<u32> {
    match it.pid_prop {
        Option::Some(s) => spec_parse_u32(s),
        Option::None => Option::None,
    }
}

/// Whether an item belongs to the queried process.
pub open spec fn spec_item_matches(it: SinkInputItemView, pid: u32) -> bool {
    spec_tag_of(it) == Option::<u32>::Some(pid)
}

/// The snapshot kept for a delivered item, with its tag parsed.
pub open spec fn spec_to_sink_input(it: SinkInputItemView) -> SinkInputView {
    SinkInputView { index: it.index, pid_tag: spec_tag_of(it), mute: it.mute, volumes: it.volumes }
}

/// Whether a delivered item's process-id tag equals the queried pid; absent
/// and malformed tags never match.
pub fn item_matches(it: &SinkInputItem, pid: u32) -> (b: bool)
    ensures
        b == spec_item_matches(it@, pid),
{
    match &it.pid_prop {
        Option::Some(s) => {
            match parse_pid_tag(s.as_str()) {
                Option::Some(tag) => tag == pid,
                Option::None => false,
            }
        },
        Option::None => false,
    }
}

/// Parses the item's tag and keeps the rest of the snapshot.
pub fn to_sink_input(it: SinkInputItem) -> (r: SinkInput)
    ensures
        r@ == spec_to_sink_input(it@),
{
    let pid_tag: Option<u32> = match &it.pid_prop {
        Option::Some(s) => parse_pid_tag(s.as_str()),
        Option::None => Option::None,
    };
    SinkInput { index: it.index, pid_tag, mute: it.mute, volumes: it.volumes }
}

/// The sink inputs kept from an enumeration: exactly the items whose tag
/// parses to the queried pid, in delivery order, with their tags parsed.
pub open spec fn spec_find_sink_inputs(items: Seq<SinkInputItemView>, pid: u32) -> Seq<
    SinkInputView,
>
    decreases items.len(),
{
    if items.len() == 0 {
        Seq::empty()
    } else {
        let rest = spec_find_sink_inputs(items.drop_last(), pid);
        if spec_item_matches(items.last(), pid) {
            rest.push(spec_to_sink_input(items.last()))
        } else {
            rest
        }
    }
}

/// Reading the filter from the front: the first item's contribution comes
/// first, then the filter of the rest.
pub proof fn lemma_find_cons(x: SinkInputItemView, rest: Seq<SinkInputItemView>, pid: u32)
    ensures
        spec_find_sink_inputs(seq![x] + rest, pid) == (if spec_item_matches(x, pid) {
            seq![spec_to_sink_input(x)]
        } else {
            Seq::<SinkInputView>::empty()
        }) + spec_find_sink_inputs(rest, pid),
    decreases rest.len(),
{
    let first = if spec_item_matches(x, pid) {
        seq![spec_to_sink_input(x)]
    } else {
        Seq::<SinkInputView>::empty()
    };
    if rest.len() == 0 {
        assert(seq![x] + rest =~= seq![x]);
        assert(seq![x].drop_last() =~= Seq::<SinkInputItemView>::empty());
        assert(seq![x].last() == x);
        assert(spec_find_sink_inputs(seq![x], pid) =~= first + spec_find_sink_inputs(rest, pid))
            by {
            reveal_with_fuel(spec_find_sink_inputs, 2);
        }
    } else {
        let whole = seq![x] + rest;
        assert(whole.drop_last() =~= seq![x] + rest.drop_last());
        assert(whole.last() == rest.last());
        lemma_find_cons(x, rest.drop_last(), pid);
        assert(spec_find_sink_inputs(whole, pid) =~= first + spec_find_sink_inputs(rest, pid));
    }
}

/// Every sink input returned by an enumeration carries the queried pid as
/// its parsed tag: an item with a missing, malformed or different tag is
/// never returned.
pub proof fn lemma_find_only_matching(items: Seq<SinkInputItemView>, pid: u32)
    ensures
        forall|j: int|
            0 <= j < spec_find_sink_inputs(items, pid).len() ==> (#[trigger] spec_find_sink_inputs(
                items,
                pid,
            )[j]).pid_tag == Option::<u32>::Some(pid),
    decreases items.len(),
{
    if items.len() > 0 {
        lemma_find_only_matching(items.drop_last(), pid);
    }
}

/// Filters an enumeration's delivered items down to the streams owned by
/// `pid`, in delivery order.
pub fn find_sink_inputs(items: Vec<SinkInputItem>, pid: u32) -> (r: Vec<SinkInput>)
    ensures
        input_views(r@) == spec_find_sink_inputs(item_views(items@), pid),
{
    let ghost all = item_views(items@);
    let n: usize = items.len();
    proof {
        assert(all.len() == n);
    }
    let mut rest = items;
    let mut out: Vec<SinkInput> = Vec::new();
    let mut i: usize = 0;
    while rest.len() > 0
        invariant
            i + rest@.len() == all.len(),
            all.len() <= usize::MAX,
            item_views(rest@) =~= all.subrange(i as int, all.len() as int),
            input_views(out@) =~= spec_find_sink_inputs(all.take(i as int), pid),
        decreases rest@.len(),
    {
        let ghost prev = rest@;
        let it = rest.remove(0);
        proof {
            assert(rest@ =~= prev.drop_first());
            assert(it@ == item_views(prev)[0]);
            assert(it@ == all[i as int]);
            assert forall|j: int| 0 <= j < rest@.len() implies item_views(rest@)[j] == all.subrange(
                i + 1,
                all.len() as int,
            )[j] by {
                assert(rest@[j] == prev[j + 1]);
                assert(item_views(prev)[j + 1] == all[i + 1 + j]);
            }
            assert(item_views(rest@) =~= all.subrange(i + 1, all.len() as int));
            assert(all.take(i + 1).drop_last() =~= all.take(i as int));
            assert(all.take(i + 1).last() == all[i as int]);
        }
        if item_matches(&it, pid) {
            let si = to_sink_input(it);
            proof {
                assert(input_views(out@.push(si)) =~= input_views(out@).push(si@));
            }
            out.push(si);
        }
        i = i + 1;
    }
    proof {
        assert(all.take(i as int) =~= all);
        assert(input_views(out@) == spec_find_sink_inputs(item_views(items@), pid));
    }
    out
}

} // verus!
