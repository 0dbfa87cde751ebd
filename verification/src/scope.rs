//! The access scope of a user, and its text form: `all`, `read_all`, or
//! `read:` followed by the UUIDs of the readable projects, separated by commas.

use vstd::prelude::*;
use crate::text::{chars_of, has_prefix, same_chars, string_from_chars, suffix_from};
use crate::uuid_text::{
    hyphenated_text, lemma_hyphenated_text, lemma_parse_hyphenated, parse_uuid, uuid_from_text, uuid_to_text,
};

verus! {

/// What a user may do.
pub enum UserScope {
    /// Everything: read, edit and add analytics data, read and change settings.
    All,
    /// Read the analytics data of every project, and nothing more.
    ReadAll,
    /// Read the analytics data of the listed projects only.
    Read(Vec<u128>),
}

/// The mathematical value of a [`UserScope`].
pub enum ScopeView {
    All,
    ReadAll,
    Read(Seq<u128>),
}

impl View for UserScope {
    type V = ScopeView;

    open spec fn view(&self) -> ScopeView {
        match self {
            UserScope::All => ScopeView::All,
            UserScope::ReadAll => ScopeView::ReadAll,
            UserScope::Read(v) => ScopeView::Read(v@),
        }
    }
}

pub open spec fn text_all() -> Seq<char> {
    seq!['a', 'l', 'l']
}

pub open spec fn text_read_all() -> Seq<char> {
    seq!['r', 'e', 'a', 'd', '_', 'a', 'l', 'l']
}

pub open spec fn text_read_prefix() -> Seq<char> {
    seq!['r', 'e', 'a', 'd', ':']
}

/// The pieces of `s` between occurrences of `sep`, as `str::split` yields
/// them: one more piece than there are separators.
pub open spec fn split_on(s: Seq<char>, sep: char) -> Seq<Seq<char>>
    decreases s.len(),
{
    if s.len() == 0 {
        seq![Seq::empty()]
    } else {
        let p = split_on(s.drop_last(), sep);
        if s.last() == sep {
            p.push(Seq::empty())
        } else {
            p.update(p.len() - 1, p.last().push(s.last()))
        }
    }
}

/// The pieces that `str::split_terminator` yields: those of [`split_on`],
/// without the last one where it is empty.
pub open spec fn split_terminator(s: Seq<char>, sep: char) -> Seq<Seq<char>> {
    let p = split_on(s, sep);
    if p.last().len() == 0 {
        p.drop_last()
    } else {
        p
    }
}

/// The pieces joined into one text, with `sep` between each two.
pub open spec fn join_with(pieces: Seq<Seq<char>>, sep: char) -> Seq<char>
    decreases pieces.len(),
{
    if pieces.len() == 0 {
        Seq::empty()
    } else if pieces.len() == 1 {
        pieces[0]
    } else {
        join_with(pieces.drop_last(), sep).push(sep) + pieces.last()
    }
}

/// The UUIDs that the pieces are the texts of, or `None` where one of them is
/// not the text of a UUID.
pub open spec fn parsed_uuids(pieces: Seq<Seq<char>>) -> Option<Seq<u128>>
    decreases pieces.len(),
{
    if pieces.len() == 0 {
        Some(Seq::empty())
    } else {
        match parsed_uuids(pieces.drop_last()) {
            Some(us) => match uuid_from_text(pieces.last()) {
                Some(u) => Some(us.push(u)),
                None => None,
            },
            None => None,
        }
    }
}

/// The scope that a text names, or `None` where it names none.
pub open spec fn scope_from_text(s: Seq<char>) -> Option<ScopeView> {
    if s == text_all() {
        Some(ScopeView::All)
    } else if s == text_read_all() {
        Some(ScopeView::ReadAll)
    } else if s.len() >= 5 && s.take(5) == text_read_prefix() {
        match parsed_uuids(split_terminator(s.skip(5), ',')) {
            Some(us) => Some(ScopeView::Read(us)),
            None => None,
        }
    } else {
        None
    }
}

/// The hyphenated texts of the given UUIDs.
pub open spec fn uuid_texts(us: Seq<u128>) -> Seq<Seq<char>> {
    us.map_values(|u: u128| hyphenated_text(u))
}

/// The text of a scope.
pub open spec fn scope_text(sc: ScopeView) -> Seq<char> {
    match sc {
        ScopeView::All => text_all(),
        ScopeView::ReadAll => text_read_all(),
        ScopeView::Read(us) => text_read_prefix() + join_with(uuid_texts(us), ','),
    }
}

pub proof fn lemma_split_on_nonempty(s: Seq<char>, sep: char)
    ensures
        split_on(s, sep).len() >= 1,
    decreases s.len(),
{
    if s.len() > 0 {
        lemma_split_on_nonempty(s.drop_last(), sep);
    }
}

/// Appending text without a separator extends the last piece.
pub proof fn lemma_split_on_append(x: Seq<char>, y: Seq<char>, sep: char)
    requires
        forall|i: int| 0 <= i < y.len() ==> y[i] != sep,
    ensures
        split_on(x + y, sep) == split_on(x, sep).update(
            split_on(x, sep).len() - 1,
            split_on(x, sep).last() + y,
        ),
    decreases y.len(),
{
    lemma_split_on_nonempty(x, sep);
    if y.len() == 0 {
        assert(x + y =~= x);
        assert(split_on(x, sep).last() + y =~= split_on(x, sep).last());
        assert(split_on(x, sep).update(split_on(x, sep).len() - 1, split_on(x, sep).last())
            =~= split_on(x, sep));
    } else {
        let y0 = y.drop_last();
        lemma_split_on_append(x, y0, sep);
        assert((x + y).drop_last() =~= x + y0);
        assert((x + y).last() == y.last());
        let p = split_on(x, sep);
        assert((p.last() + y0).push(y.last()) =~= p.last() + y);
        assert(split_on(x + y, sep) =~= p.update(p.len() - 1, p.last() + y));
    }
}

/// Splitting the joined pieces gives the pieces back, where no piece holds
/// the separator.
pub proof fn lemma_split_join(ps: Seq<Seq<char>>, sep: char)
    requires
        ps.len() >= 1,
        forall|k: int, i: int| 0 <= k < ps.len() && 0 <= i < ps[k].len() ==> ps[k][i] != sep,
    ensures
        split_on(join_with(ps, sep), sep) == ps,
    decreases ps.len(),
{
    if ps.len() == 1 {
        lemma_split_on_append(Seq::empty(), ps[0], sep);
        assert(Seq::<char>::empty() + ps[0] =~= ps[0]);
        assert(split_on(Seq::<char>::empty(), sep) =~= seq![Seq::<char>::empty()]);
        assert(seq![Seq::<char>::empty()].update(0, Seq::<char>::empty() + ps[0]) =~= ps);
    } else {
        let front = ps.drop_last();
        lemma_split_join(front, sep);
        let j = join_with(front, sep).push(sep);
        assert(j.drop_last() =~= join_with(front, sep));
        assert(split_on(j, sep) == front.push(Seq::empty()));
        lemma_split_on_append(j, ps.last(), sep);
        assert(Seq::<char>::empty() + ps.last() =~= ps.last());
        assert(front.push(Seq::empty()).update(front.len() as int, ps.last()) =~= ps);
    }
}

/// Once a prefix of the pieces fails to parse, all of them fail.
pub proof fn lemma_parsed_uuids_prefix_none(ps: Seq<Seq<char>>, j: int)
    requires
        0 <= j <= ps.len(),
        parsed_uuids(ps.take(j)) is None,
    ensures
        parsed_uuids(ps) is None,
    decreases ps.len(),
{
    if j == ps.len() {
        assert(ps.take(j) =~= ps);
    } else {
        assert(ps.drop_last().take(j) =~= ps.take(j));
        lemma_parsed_uuids_prefix_none(ps.drop_last(), j);
    }
}

/// The texts of UUIDs hold no comma, and are not empty.
pub proof fn lemma_uuid_texts(us: Seq<u128>)
    ensures
        uuid_texts(us).len() == us.len(),
        forall|k: int, i: int|
            0 <= k < us.len() && 0 <= i < uuid_texts(us)[k].len() ==> uuid_texts(us)[k][i] != ',',
        forall|k: int| 0 <= k < us.len() ==> #[trigger] uuid_texts(us)[k].len() == 36,
{
    assert forall|k: int, i: int|
        0 <= k < us.len() && 0 <= i < uuid_texts(us)[k].len() implies uuid_texts(us)[k][i] != ',' by {
        lemma_hyphenated_text(us[k]);
    }
    assert forall|k: int| 0 <= k < us.len() implies #[trigger] uuid_texts(us)[k].len() == 36 by {
        lemma_hyphenated_text(us[k]);
    }
}

/// The pieces that the text of a `Read` scope splits into after `read:` are
/// the texts of its UUIDs.
pub proof fn lemma_read_text_pieces(us: Seq<u128>)
    ensures
        split_terminator(join_with(uuid_texts(us), ','), ',') == uuid_texts(us),
{
    lemma_uuid_texts(us);
    if us.len() == 0 {
        assert(uuid_texts(us) =~= Seq::<Seq<char>>::empty());
        assert(split_on(Seq::<char>::empty(), ',') =~= seq![Seq::<char>::empty()]);
        assert(seq![Seq::<char>::empty()].drop_last() =~= Seq::<Seq<char>>::empty());
    } else {
        lemma_split_join(uuid_texts(us), ',');
        assert(uuid_texts(us).last().len() == 36);
    }
}

/// Splits `s` as `str::split_terminator` does.
pub fn split_commas(s: &[char]) -> (r: Vec<Vec<char>>)
    ensures
        r@.map_values(|v: Vec<char>| v@) == split_terminator(s@, ','),
{
    let mut done: Vec<Vec<char>> = Vec::new();
    let mut cur: Vec<char> = Vec::new();
    let mut i: usize = 0;
    while i < s.len()
        invariant
            i <= s@.len(),
            split_on(s@.take(i as int), ',') == done@.map_values(|v: Vec<char>| v@).push(cur@),
        decreases s@.len() - i,
    {
        let ghost before = done@.map_values(|v: Vec<char>| v@);
        assert(s@.take(i + 1).drop_last() =~= s@.take(i as int));
        if s[i] == ',' {
            let piece = cur;
            done.push(piece);
            cur = Vec::new();
            assert(done@.map_values(|v: Vec<char>| v@) =~= before.push(piece@));
        } else {
            cur.push(s[i]);
            assert(done@.map_values(|v: Vec<char>| v@) =~= before);
            assert(before.push(cur@) =~= before.push(cur@.drop_last()).update(
                before.len() as int,
                cur@,
            ));
        }
        i += 1;
    }
    assert(s@.take(s@.len() as int) =~= s@);
    let ghost pieces = done@.map_values(|v: Vec<char>| v@);
    if cur.len() > 0 {
        let last = cur;
        done.push(last);
        assert(done@.map_values(|v: Vec<char>| v@) =~= pieces.push(last@));
    } else {
        assert(pieces.push(cur@).drop_last() =~= pieces);
    }
    done
}

impl UserScope {
    /// Reads a scope from its text: `all`, `read_all`, or `read:` followed
    /// by comma-separated UUIDs (a trailing comma is allowed).  Any other
    /// text, or a piece after `read:` that is not a UUID, gives `None`.
    /// The text of a scope is read back as that scope.
    pub fn parse(data: &str) -> (r: Option<UserScope>)
        ensures
            match r {
                Some(sc) => scope_from_text(data@) == Some(sc@),
                None => scope_from_text(data@) is None,
            },
            forall|sc: ScopeView| #[trigger] scope_text(sc) == data@ ==> (r matches Some(p) && p@ == sc),
    {
        let s = chars_of(data);
        let all = vec!['a', 'l', 'l'];
        let read_all = vec!['r', 'e', 'a', 'd', '_', 'a', 'l', 'l'];
        let read_prefix = vec!['r', 'e', 'a', 'd', ':'];
        assert(all@ =~= text_all());
        assert(read_all@ =~= text_read_all());
        assert(read_prefix@ =~= text_read_prefix());
        proof {
            assert forall|us: Seq<u128>| scope_text(ScopeView::Read(us)) != text_all() by {
                if scope_text(ScopeView::Read(us)).len() == 3 {
                    assert(scope_text(ScopeView::Read(us))[0] == 'r');
                }
            }
            assert forall|us: Seq<u128>| scope_text(ScopeView::Read(us)) != text_read_all() by {
                if scope_text(ScopeView::Read(us)).len() == 8 {
                    assert(scope_text(ScopeView::Read(us))[4] == ':');
                }
            }
        }
        if same_chars(&s, &all) {
            return Some(UserScope::All);
        }
        if same_chars(&s, &read_all) {
            return Some(UserScope::ReadAll);
        }
        if !has_prefix(&s, &read_prefix) {
            proof {
                assert forall|us: Seq<u128>| scope_text(ScopeView::Read(us)) != data@ by {
                    assert(scope_text(ScopeView::Read(us)).take(5) =~= text_read_prefix());
                }
            }
            return None;
        }
        let rest = suffix_from(&s, 5);
        assert(rest@ == data@.skip(5));
        let pieces = split_commas(&rest);
        let ghost pv = pieces@.map_values(|v: Vec<char>| v@);
        proof {
            assert forall|us: Seq<u128>| scope_text(ScopeView::Read(us)) == data@ implies pv
                == uuid_texts(us) by {
                let t = scope_text(ScopeView::Read(us));
                assert(t.skip(5) =~= join_with(uuid_texts(us), ','));
                lemma_read_text_pieces(us);
            }
        }
        let mut list: Vec<u128> = Vec::new();
        let mut i: usize = 0;
        while i < pieces.len()
            invariant
                pv == pieces@.map_values(|v: Vec<char>| v@),
                pv == split_terminator(data@.skip(5), ','),
                data@.len() >= 5,
                data@.take(5) == text_read_prefix(),
                data@ != text_all(),
                data@ != text_read_all(),
                forall|us: Seq<u128>| scope_text(ScopeView::Read(us)) == data@ ==> pv == uuid_texts(us),
                i <= pieces@.len(),
                parsed_uuids(pv.take(i as int)) == Some(list@),
                forall|us: Seq<u128>| pv == uuid_texts(us) ==> list@ == us.take(i as int),
            decreases pieces@.len() - i,
        {
            assert(pv.take(i + 1).drop_last() =~= pv.take(i as int));
            assert(pv[i as int] == pieces@[i as int]@);
            match parse_uuid(&pieces[i]) {
                Some(u) => {
                    list.push(u);
                    proof {
                        assert forall|us: Seq<u128>| pv == uuid_texts(us) implies list@ == us.take(
                            i + 1,
                        ) by {
                            assert(pv[i as int] == hyphenated_text(us[i as int]));
                            lemma_parse_hyphenated(us[i as int]);
                            assert(us.take(i + 1) =~= us.take(i as int).push(us[i as int]));
                        }
                    }
                },
                None => {
                    proof {
                        lemma_parsed_uuids_prefix_none(pv, i + 1);
                        assert forall|us: Seq<u128>| scope_text(ScopeView::Read(us)) != data@ by {
                            if scope_text(ScopeView::Read(us)) == data@ {
                                assert(pv == uuid_texts(us));
                                assert(pv[i as int] == hyphenated_text(us[i as int]));
                                lemma_parse_hyphenated(us[i as int]);
                            }
                        }
                    }
                    return None;
                },
            }
            i += 1;
        }
        assert(pv.take(pieces@.len() as int) =~= pv);
        proof {
            assert forall|us: Seq<u128>| pv == uuid_texts(us) implies list@ == us by {
                assert(us.take(us.len() as int) =~= us);
            }
        }
        Some(UserScope::Read(list))
    }

    /// The text of this scope, which [`UserScope::parse`] reads back.
    pub fn scope_to_str(&self) -> (r: String)
        ensures
            r@ == scope_text(self@),
    {
        match self {
            UserScope::All => {
                let v = vec!['a', 'l', 'l'];
                let r = string_from_chars(&v);
                assert(r@ =~= text_all());
                r
            },
            UserScope::ReadAll => {
                let v = vec!['r', 'e', 'a', 'd', '_', 'a', 'l', 'l'];
                let r = string_from_chars(&v);
                assert(r@ =~= text_read_all());
                r
            },
            UserScope::Read(us) => {
                let mut out = vec!['r', 'e', 'a', 'd', ':'];
                let mut i: usize = 0;
                while i < us.len()
                    invariant
                        i <= us@.len(),
                        out@ == text_read_prefix() + join_with(uuid_texts(us@.take(i as int)), ','),
                    decreases us@.len() - i,
                {
                    let ghost before = out@;
                    let ghost done = uuid_texts(us@.take(i as int));
                    let ghost next = uuid_texts(us@.take(i + 1));
                    assert(next.drop_last() =~= done);
                    assert(next.last() == hyphenated_text(us@[i as int]));
                    if i > 0 {
                        out.push(',');
                    }
                    let t = uuid_to_text(us[i]);
                    let tc = chars_of(t.as_str());
                    let mut k: usize = 0;
                    let ghost mid = out@;
                    while k < tc.len()
                        invariant
                            k <= tc@.len(),
                            out@ == mid + tc@.take(k as int),
                        decreases tc@.len() - k,
                    {
                        out.push(tc[k]);
                        k += 1;
                        assert(out@ =~= mid + tc@.take(k as int));
                    }
                    assert(tc@.take(tc@.len() as int) =~= tc@);
                    if i == 0 {
                        assert(next.len() == 1);
                        assert(done.len() == 0);
                        assert(out@ =~= text_read_prefix() + join_with(next, ','));
                    } else {
                        assert(out@ =~= text_read_prefix() + join_with(next, ','));
                    }
                    i += 1;
                }
                assert(us@.take(us@.len() as int) =~= us@);
                string_from_chars(&out)
            },
        }
    }
}

} // verus!
