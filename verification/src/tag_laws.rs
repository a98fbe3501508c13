//! The order and uniqueness of data-struct field tags.
use vstd::prelude::*;

use crate::rust_parser::{field_tags, tag_if};
use crate::text::contains;

verus! {

/// Every tag a field can get, in the order they are given.
pub open spec fn tag_list() -> Seq<Seq<char>> {
    seq![
        "[STORED BUMP]"@,
        "[AUTHORITY]"@,
        "[NUMERIC ⚠ overflow]"@,
        "[ACCOUNTING ⚠ reset]"@,
        "[TIMESTAMP ⚠ manipulation]"@,
        "[PAUSE FLAG]"@,
        "[PUBKEY ⚠ validation]"@,
    ]
}

/// Tag `r[i]` is entry `at[i]` of the list, and the entries increase.
pub open spec fn placed_in_list(r: Seq<Seq<char>>, at: Seq<int>) -> bool {
    &&& at.len() == r.len()
    &&& forall|i: int| 0 <= i < at.len() ==> 0 <= #[trigger] at[i] < 7 && r[i] == tag_list()[at[i]]
    &&& forall|i: int, j: int| 0 <= i < j < at.len() ==> #[trigger] at[i] < #[trigger] at[j]
}

/// The tags of the list whose condition in `bs` holds, in list order.
pub open spec fn picked(bs: Seq<bool>) -> Seq<Seq<char>>
    decreases bs.len(),
{
    if bs.len() == 0 {
        seq![]
    } else {
        picked(bs.drop_last()) + tag_if(bs.last(), tag_list()[bs.len() - 1])
    }
}

/// The positions in the list of the tags that `bs` picks.
pub open spec fn picked_at(bs: Seq<bool>) -> Seq<int>
    decreases bs.len(),
{
    if bs.len() == 0 {
        seq![]
    } else if bs.last() {
        picked_at(bs.drop_last()).push(bs.len() - 1)
    } else {
        picked_at(bs.drop_last())
    }
}

proof fn lemma_picked(bs: Seq<bool>)
    requires
        bs.len() <= 7,
    ensures
        picked(bs).len() == picked_at(bs).len(),
        forall|i: int| 0 <= i < picked_at(bs).len() ==> 0 <= #[trigger] picked_at(bs)[i] < bs.len()
            && picked(bs)[i] == tag_list()[picked_at(bs)[i]],
        forall|i: int, j: int| 0 <= i < j < picked_at(bs).len() ==> #[trigger] picked_at(bs)[i] < #[trigger] picked_at(bs)[j],
    decreases bs.len(),
{
    if bs.len() > 0 {
        lemma_picked(bs.drop_last());
    }
}

/// The seven tag texts differ from one another.
proof fn lemma_tags_distinct()
    ensures
        forall|a: int, b: int| 0 <= a < b < 7 ==> #[trigger] tag_list()[a] != #[trigger] tag_list()[b],
{
    reveal_strlit("[STORED BUMP]");
    reveal_strlit("[AUTHORITY]");
    reveal_strlit("[NUMERIC ⚠ overflow]");
    reveal_strlit("[ACCOUNTING ⚠ reset]");
    reveal_strlit("[TIMESTAMP ⚠ manipulation]");
    reveal_strlit("[PAUSE FLAG]");
    reveal_strlit("[PUBKEY ⚠ validation]");
    let l = tag_list();
    assert(l[0].len() == 13 && l[1].len() == 11 && l[2].len() == 20 && l[3].len() == 20);
    assert(l[4].len() == 26 && l[5].len() == 12 && l[6].len() == 21);
    assert(l[2][1] != l[3][1]);
}

/// A field's tags are taken from the fixed list of seven tags, in the list's order, and no
/// tag comes twice.
pub proof fn law_field_tags_ordered(n: Seq<char>, t: Seq<char>)
    ensures
        exists|at: Seq<int>| #[trigger] placed_in_list(field_tags(n, t), at),
        forall|i: int, j: int| 0 <= i < j < field_tags(n, t).len() ==> #[trigger] field_tags(n, t)[i]
            != #[trigger] field_tags(n, t)[j],
{
    let int_like = contains(t, "u64"@) || contains(t, "u128"@) || contains(t, "i64"@);
    let bs = seq![
        n == "bump"@,
        (contains(n, "admin"@) || contains(n, "owner"@) || contains(n, "authority"@) || contains(n, "signer"@)
            || contains(n, "key"@)) && contains(t, "pubkey"@),
        (contains(n, "amount"@) || contains(n, "balance"@) || contains(n, "total"@) || contains(n, "reserve"@)
            || contains(n, "reward"@) || contains(n, "fee"@) || contains(n, "shares"@) || contains(n, "stake"@)
            || contains(n, "deposit"@)) && int_like,
        (contains(n, "debt"@) || contains(n, "accrued"@) || contains(n, "pending"@) || contains(n, "claimable"@))
            && int_like,
        (contains(n, "timestamp"@) || contains(n, "slot"@) || contains(n, "epoch"@) || contains(n, "time"@)
            || contains(n, "duration"@) || contains(n, "created_at"@)) && (contains(t, "i64"@) || contains(t, "u64"@)),
        (contains(n, "paused"@) || contains(n, "frozen"@) || contains(n, "active"@) || contains(n, "enabled"@))
            && contains(t, "bool"@),
        (contains(n, "authority"@) || contains(n, "owner"@) || contains(n, "creator"@) || contains(n, "recipient"@)
            || contains(n, "signer"@)) && contains(t, "pubkey"@),
    ];
    reveal_with_fuel(picked, 8);
    assert(bs.drop_last().drop_last().drop_last().drop_last().drop_last().drop_last().drop_last() =~= Seq::<bool>::empty());
    assert(field_tags(n, t) =~= picked(bs));
    lemma_picked(bs);
    lemma_tags_distinct();
    let at = picked_at(bs);
    let r = field_tags(n, t);
    assert(placed_in_list(r, at));
    assert forall|i: int, j: int| 0 <= i < j < r.len() implies #[trigger] r[i] != #[trigger] r[j] by {
        assert(at[i] < at[j]);
        assert(tag_list()[at[i]] != tag_list()[at[j]]);
    }
}

} // verus!
