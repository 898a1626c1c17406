//! Key and mouse combinations: neither the case of the letters nor the order of
//! the parts makes a difference.
use crate::keys::{
    blank, capital, capitals, combined, Fault, KeyCombo, modifier_named, Modifiers, MouseCombo,
    pieces, small, smalls, trimmed, trimmed_back, trimmed_front,
};
use vstd::prelude::*;

verus! {

proof fn lemma_small_char(c: char)
    ensures
        (small(c) == '+') == (c == '+'),
        blank(small(c)) == blank(c),
        capital(small(c)) == capital(c),
        small(small(c)) == small(c),
{
}

proof fn lemma_smalls_index(s: Seq<char>, i: int)
    requires
        0 <= i < s.len(),
    ensures
        smalls(s)[i] == small(s[i]),
{
}

proof fn lemma_pieces_some(s: Seq<char>)
    ensures
        pieces(s).len() > 0,
    decreases s.len(),
{
    if s.len() > 0 {
        lemma_pieces_some(s.drop_last());
    }
}

/// Parts with their ASCII capitals made small.
pub open spec fn all_smalls(parts: Seq<Seq<char>>) -> Seq<Seq<char>> {
    parts.map_values(|p: Seq<char>| smalls(p))
}

proof fn lemma_pieces_small(s: Seq<char>)
    ensures
        pieces(smalls(s)) == all_smalls(pieces(s)),
    decreases s.len(),
{
    if s.len() == 0 {
        assert(smalls(s) =~= Seq::<char>::empty());
        assert(smalls(Seq::<char>::empty()) =~= Seq::<char>::empty());
        assert(pieces(smalls(s)) =~= all_smalls(pieces(s)));
    } else {
        let t = s.drop_last();
        lemma_pieces_small(t);
        lemma_pieces_some(t);
        lemma_small_char(s.last());
        assert(smalls(s).drop_last() =~= smalls(t));
        assert(smalls(s).last() == small(s.last()));
        let before = pieces(t);
        if s.last() == '+' {
            assert(smalls(Seq::<char>::empty()) =~= Seq::<char>::empty());
            assert(pieces(smalls(s)) =~= all_smalls(pieces(s)));
        } else {
            assert(smalls(before.last().push(s.last())) =~= smalls(before.last()).push(small(s.last())));
            assert(all_smalls(before).drop_last() =~= all_smalls(before.drop_last()));
            assert(pieces(smalls(s)) =~= all_smalls(pieces(s)));
        }
    }
}

proof fn lemma_front_small(s: Seq<char>)
    ensures
        trimmed_front(smalls(s)) == smalls(trimmed_front(s)),
    decreases s.len(),
{
    if s.len() > 0 {
        lemma_small_char(s[0]);
        lemma_smalls_index(s, 0);
        if blank(s[0]) {
            let t = s.subrange(1, s.len() as int);
            lemma_front_small(t);
            assert(smalls(s).subrange(1, s.len() as int) =~= smalls(t));
        }
    } else {
        assert(smalls(s) =~= s);
    }
}

proof fn lemma_back_small(s: Seq<char>)
    ensures
        trimmed_back(smalls(s)) == smalls(trimmed_back(s)),
    decreases s.len(),
{
    if s.len() > 0 {
        lemma_small_char(s.last());
        lemma_smalls_index(s, s.len() - 1);
        if blank(s.last()) {
            lemma_back_small(s.drop_last());
            assert(smalls(s).drop_last() =~= smalls(s.drop_last()));
        }
    } else {
        assert(smalls(s) =~= s);
    }
}

proof fn lemma_trim_small(s: Seq<char>)
    ensures
        trimmed(smalls(s)) == smalls(trimmed(s)),
{
    lemma_front_small(s);
    lemma_back_small(trimmed_front(s));
}

proof fn lemma_smalls_twice(s: Seq<char>)
    ensures
        smalls(smalls(s)) == smalls(s),
        capitals(smalls(s)) == capitals(s),
{
    assert forall|i: int| 0 <= i < s.len() implies smalls(smalls(s))[i] == smalls(s)[i] && capitals(smalls(s))[i]
        == capitals(s)[i] by {
        lemma_small_char(s[i]);
    }
    assert(smalls(smalls(s)) =~= smalls(s));
    assert(capitals(smalls(s)) =~= capitals(s));
}

/// What parts come to, with the trigger's capitals made small.
pub open spec fn small_outcome(r: Result<(Modifiers, Option<Seq<char>>), Fault>) -> Result<
    (Modifiers, Option<Seq<char>>),
    Fault,
> {
    match r {
        Ok((m, Some(t))) => Ok((m, Some(smalls(t)))),
        _ => r,
    }
}

proof fn lemma_combined_small(parts: Seq<Seq<char>>)
    ensures
        combined(all_smalls(parts)) == small_outcome(combined(parts)),
    decreases parts.len(),
{
    if parts.len() > 0 {
        let before = parts.drop_last();
        lemma_combined_small(before);
        assert(all_smalls(parts).drop_last() =~= all_smalls(before));
        assert(all_smalls(parts).last() == smalls(parts.last()));
        lemma_trim_small(parts.last());
        lemma_smalls_twice(trimmed(parts.last()));
        assert(smalls(trimmed(parts.last())).len() == trimmed(parts.last()).len());
    }
}

/// A combination means the same whatever the case of its letters.
pub proof fn lemma_case_makes_no_difference(a: Seq<char>, b: Seq<char>)
    requires
        smalls(a) == smalls(b),
    ensures
        KeyCombo::parsed(a) == KeyCombo::parsed(b),
        MouseCombo::parsed(a) == MouseCombo::parsed(b),
{
    lemma_pieces_small(a);
    lemma_pieces_small(b);
    lemma_combined_small(pieces(a));
    lemma_combined_small(pieces(b));
    let (ra, rb) = (combined(pieces(a)), combined(pieces(b)));
    assert(small_outcome(ra) == small_outcome(rb));
    if let Ok((ma, Some(ta))) = ra {
        if let Ok((mb, Some(tb))) = rb {
            lemma_smalls_twice(ta);
            lemma_smalls_twice(tb);
            assert(capitals(ta) == capitals(tb));
        }
    }
}

/// The modifiers of two sets.
pub open spec fn both(a: Modifiers, b: Modifiers) -> Modifiers {
    Modifiers { shift: a.shift || b.shift, ctrl: a.ctrl || b.ctrl, alt: a.alt || b.alt, logo: a.logo || b.logo }
}

/// Whether any part is empty.
pub open spec fn any_empty(parts: Seq<Seq<char>>) -> bool
    decreases parts.len(),
{
    parts.len() > 0 && (any_empty(parts.drop_last()) || trimmed(parts.last()).len() == 0)
}

/// The modifiers that parts name.
pub open spec fn modifiers_in(parts: Seq<Seq<char>>) -> Modifiers
    decreases parts.len(),
{
    if parts.len() == 0 {
        Modifiers::none()
    } else {
        match modifier_named(smalls(trimmed(parts.last()))) {
            Some(x) => modifiers_in(parts.drop_last()).plus(x),
            None => modifiers_in(parts.drop_last()),
        }
    }
}

/// The parts that name no modifier.
pub open spec fn triggers_in(parts: Seq<Seq<char>>) -> Seq<Seq<char>>
    decreases parts.len(),
{
    if parts.len() == 0 {
        Seq::empty()
    } else {
        match modifier_named(smalls(trimmed(parts.last()))) {
            Some(x) => triggers_in(parts.drop_last()),
            None => triggers_in(parts.drop_last()).push(trimmed(parts.last())),
        }
    }
}

proof fn lemma_combined_is(parts: Seq<Seq<char>>)
    ensures
        any_empty(parts) || triggers_in(parts).len() > 1 ==> combined(parts) is Err,
        !any_empty(parts) && triggers_in(parts).len() <= 1 ==> combined(parts) == Ok::<
            (Modifiers, Option<Seq<char>>),
            Fault,
        >(
            (
                modifiers_in(parts),
                if triggers_in(parts).len() == 0 {
                    None
                } else {
                    Some(triggers_in(parts)[0])
                },
            ),
        ),
    decreases parts.len(),
{
    if parts.len() > 0 {
        lemma_combined_is(parts.drop_last());
    }
}

proof fn lemma_parts_together(a: Seq<Seq<char>>, b: Seq<Seq<char>>)
    ensures
        any_empty(a + b) == (any_empty(a) || any_empty(b)),
        modifiers_in(a + b) == both(modifiers_in(a), modifiers_in(b)),
        triggers_in(a + b) == triggers_in(a) + triggers_in(b),
    decreases b.len(),
{
    if b.len() == 0 {
        assert(a + b =~= a);
        assert(triggers_in(a) + triggers_in(b) =~= triggers_in(a));
    } else {
        lemma_parts_together(a, b.drop_last());
        assert((a + b).drop_last() =~= a + b.drop_last());
        assert((a + b).last() == b.last());
        assert(triggers_in(a + b) =~= triggers_in(a) + triggers_in(b));
    }
}

proof fn lemma_pieces_together(a: Seq<char>, b: Seq<char>)
    ensures
        pieces(a.push('+') + b) == pieces(a) + pieces(b),
    decreases b.len(),
{
    let joined = a.push('+') + b;
    lemma_pieces_some(b);
    if b.len() == 0 {
        assert(joined =~= a.push('+'));
        assert(a.push('+').drop_last() =~= a);
        assert(pieces(joined) =~= pieces(a) + pieces(b));
    } else {
        let c = b.drop_last();
        lemma_pieces_together(a, c);
        lemma_pieces_some(c);
        assert(joined.drop_last() =~= a.push('+') + c);
        assert(joined.last() == b.last());
        let before = pieces(a) + pieces(c);
        if b.last() != '+' {
            assert(before.last() == pieces(c).last());
            assert(before.drop_last() =~= pieces(a) + pieces(c).drop_last());
        }
        assert(pieces(joined) =~= pieces(a) + pieces(b));
    }
}

/// A combination means the same whichever of two halves comes first, and so
/// whatever the order of its parts.
pub proof fn lemma_order_makes_no_difference(a: Seq<char>, b: Seq<char>)
    ensures
        KeyCombo::parsed(a.push('+') + b) == KeyCombo::parsed(b.push('+') + a),
        MouseCombo::parsed(a.push('+') + b) == MouseCombo::parsed(b.push('+') + a),
{
    let (pa, pb) = (pieces(a), pieces(b));
    lemma_pieces_together(a, b);
    lemma_pieces_together(b, a);
    lemma_parts_together(pa, pb);
    lemma_parts_together(pb, pa);
    lemma_combined_is(pa + pb);
    lemma_combined_is(pb + pa);
    let (ta, tb) = (triggers_in(pa), triggers_in(pb));
    if ta.len() + tb.len() <= 1 {
        assert(ta + tb =~= tb + ta);
    }
}

} // verus!
