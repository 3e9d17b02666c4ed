//! Playing sounds: which sounds a queue or a soundboard gets from the search
//! terms given, and how a soundboard lays out its buttons.
use vstd::prelude::*;
use vstd::string::*;
use crate::cmds::search::{Button, ButtonStyle};
use crate::models::sound::Sound;
use crate::text::{decimal, decimal_string, push_decimal};

verus! {

/// An autocompletion offered for a sound: its name, standing for its ID.
pub struct SoundChoice {
    pub name: String,
    pub value: String,
}

/// The autocompletions for a list of sounds: one per sound, in order, each
/// showing the sound's name and standing for its ID.
pub fn autocomplete_choices(sounds: &Vec<Sound>) -> (res: Vec<SoundChoice>)
    ensures
        res@.len() == sounds@.len(),
        forall|i: int| 0 <= i < sounds@.len() ==> {
            &&& (#[trigger] res@[i]).name@ == sounds@[i].name@
            &&& res@[i].value@ == decimal(sounds@[i].id as nat)
        },
{
    let mut res: Vec<SoundChoice> = Vec::new();
    let mut i: usize = 0;
    while i < sounds.len()
        invariant
            i <= sounds@.len(),
            res@.len() == i,
            forall|j: int| 0 <= j < i ==> {
                &&& (#[trigger] res@[j]).name@ == sounds@[j].name@
                &&& res@[j].value@ == decimal(sounds@[j].id as nat)
            },
        decreases sounds@.len() - i,
    {
        res.push(SoundChoice { name: sounds[i].name.clone(), value: decimal_string(sounds[i].id as u64) });
        i = i + 1;
    }
    res
}

/// The terms that were given, in order.
pub open spec fn given_terms(terms: Seq<Option<String>>) -> Seq<String>
    decreases terms.len(),
{
    if terms.len() == 0 {
        Seq::empty()
    } else {
        match terms.last() {
            Some(t) => given_terms(terms.drop_last()).push(t),
            None => given_terms(terms.drop_last()),
        }
    }
}

/// The search terms that were given, in order.
pub fn present_terms(terms: Vec<Option<String>>) -> (res: Vec<String>)
    ensures
        res@ == given_terms(terms@),
{
    let mut res: Vec<String> = Vec::new();
    let mut i: usize = 0;
    while i < terms.len()
        invariant
            i <= terms@.len(),
            res@ == given_terms(terms@.take(i as int)),
        decreases terms@.len() - i,
    {
        assert(terms@.take(i + 1).drop_last() =~= terms@.take(i as int));
        assert(terms@.take(i + 1).last() == terms@[i as int]);
        match &terms[i] {
            Some(t) => res.push(t.clone()),
            None => {},
        }
        i = i + 1;
    }
    assert(terms@.take(terms@.len() as int) =~= terms@);
    res
}

/// The first result of each search that found something, in order.
pub open spec fn first_results_spec(results: Seq<Vec<Sound>>) -> Seq<Sound>
    decreases results.len(),
{
    if results.len() == 0 {
        Seq::empty()
    } else if results.last()@.len() > 0 {
        first_results_spec(results.drop_last()).push(results.last()@[0])
    } else {
        first_results_spec(results.drop_last())
    }
}

/// The sounds a queue plays: the first result of each search that found
/// something, in order.
pub fn first_results(results: &Vec<Vec<Sound>>) -> (res: Vec<Sound>)
    ensures
        res@ == first_results_spec(results@),
{
    let mut res: Vec<Sound> = Vec::new();
    let mut i: usize = 0;
    while i < results.len()
        invariant
            i <= results@.len(),
            res@ == first_results_spec(results@.take(i as int)),
        decreases results@.len() - i,
    {
        assert(results@.take(i + 1).drop_last() =~= results@.take(i as int));
        assert(results@.take(i + 1).last() == results@[i as int]);
        if results[i].len() > 0 {
            res.push(results[i][0].duplicate());
        }
        i = i + 1;
    }
    assert(results@.take(results@.len() as int) =~= results@);
    res
}

/// The reply to a queue request.
pub fn queue_reply(count: usize) -> (res: String)
    ensures
        res@ == "Queued "@ + decimal(count as nat) + " sounds!"@,
{
    let mut s = String::from_str("Queued ");
    push_decimal(&mut s, count as u64);
    s.append(" sounds!");
    s
}

/// `s` with each sound kept only where it first occurs (sounds are the same
/// when their IDs are).
pub open spec fn dedup_by_id(s: Seq<Sound>) -> Seq<Sound>
    decreases s.len(),
{
    if s.len() == 0 {
        Seq::empty()
    } else {
        let d = dedup_by_id(s.drop_last());
        if exists|i: int| 0 <= i < d.len() && d[i].id == s.last().id {
            d
        } else {
            d.push(s.last())
        }
    }
}

/// The sounds of a soundboard: the first result of each search that found
/// something, each sound once, in order.
pub fn soundboard_sounds(results: &Vec<Vec<Sound>>) -> (res: Vec<Sound>)
    ensures
        res@ == dedup_by_id(first_results_spec(results@)),
{
    let firsts = first_results(results);
    let mut res: Vec<Sound> = Vec::new();
    let mut i: usize = 0;
    while i < firsts.len()
        invariant
            i <= firsts@.len(),
            res@ == dedup_by_id(firsts@.take(i as int)),
        decreases firsts@.len() - i,
    {
        let s = &firsts[i];
        assert(firsts@.take(i + 1).drop_last() =~= firsts@.take(i as int));
        assert(firsts@.take(i + 1).last() == *s);
        let mut seen = false;
        let mut j: usize = 0;
        while j < res.len()
            invariant
                j <= res@.len(),
                seen <==> exists|k: int| 0 <= k < j && res@[k].id == s.id,
            decreases res@.len() - j,
        {
            if res[j].id == s.id {
                seen = true;
            }
            j = j + 1;
        }
        if !seen {
            res.push(s.duplicate());
        }
        i = i + 1;
    }
    assert(firsts@.take(firsts@.len() as int) =~= firsts@);
    res
}

/// A soundboard has each sound once, and every sound that a search found first.
pub proof fn lemma_dedup_by_id(s: Seq<Sound>)
    ensures
        forall|i: int, j: int| 0 <= i < j < dedup_by_id(s).len() ==> (#[trigger] dedup_by_id(s)[i]).id != (#[trigger] dedup_by_id(s)[j]).id,
        forall|k: int| 0 <= k < s.len() ==> exists|i: int| 0 <= i < dedup_by_id(s).len() && #[trigger] dedup_by_id(s)[i].id == (#[trigger] s[k]).id,
        forall|i: int| 0 <= i < dedup_by_id(s).len() ==> s.contains(#[trigger] dedup_by_id(s)[i]),
    decreases s.len(),
{
    if s.len() > 0 {
        let t = s.drop_last();
        lemma_dedup_by_id(t);
        let d = dedup_by_id(t);
        let r = dedup_by_id(s);
        assert forall|k: int| 0 <= k < s.len() implies exists|i: int| 0 <= i < r.len() && #[trigger] r[i].id == (#[trigger] s[k]).id by {
            if k < s.len() - 1 {
                assert(s[k] == t[k]);
                let i = choose|i: int| 0 <= i < d.len() && #[trigger] d[i].id == t[k].id;
                assert(r[i] == d[i]);
            } else if exists|i: int| 0 <= i < d.len() && d[i].id == s.last().id {
                let i = choose|i: int| 0 <= i < d.len() && d[i].id == s.last().id;
                assert(r[i] == d[i]);
            } else {
                assert(r[d.len() as int] == s.last());
            }
        }
        assert forall|i: int| 0 <= i < r.len() implies s.contains(#[trigger] r[i]) by {
            if i < d.len() {
                assert(r[i] == d[i]);
                let w = choose|w: int| 0 <= w < t.len() && t[w] == d[i];
                assert(s[w] == t[w]);
            } else {
                assert(s[s.len() - 1] == r[i]);
            }
        }
        assert forall|i: int, j: int| 0 <= i < j < r.len() implies (#[trigger] r[i]).id != (#[trigger] r[j]).id by {
            if j < d.len() {
                assert(r[i] == d[i] && r[j] == d[j]);
            } else {
                assert(r[i] == d[i]);
            }
        }
    }
}

/// A soundboard keeps the order of the searches: its sounds stand in `s` at
/// the returned positions, which increase, and each at the first position of
/// `s` that holds its ID.
pub proof fn lemma_dedup_keeps_order(s: Seq<Sound>) -> (idx: Seq<int>)
    ensures
        idx.len() == dedup_by_id(s).len(),
        forall|i: int| 0 <= i < idx.len() ==> 0 <= #[trigger] idx[i] < s.len() && dedup_by_id(s)[i] == s[idx[i]],
        forall|i: int, j: int| 0 <= i < j < idx.len() ==> #[trigger] idx[i] < #[trigger] idx[j],
        forall|i: int, k: int| 0 <= i < idx.len() && 0 <= k < #[trigger] idx[i] ==> (#[trigger] s[k]).id != s[idx[i]].id,
    decreases s.len(),
{
    if s.len() == 0 {
        Seq::empty()
    } else {
        let t = s.drop_last();
        let it = lemma_dedup_keeps_order(t);
        lemma_dedup_by_id(t);
        let d = dedup_by_id(t);
        let x = s.last();
        assert forall|k: int| 0 <= k < t.len() implies #[trigger] s[k] == t[k] by {}
        if exists|i: int| 0 <= i < d.len() && d[i].id == x.id {
            assert(dedup_by_id(s) == d);
            it
        } else {
            let idx = it.push(s.len() - 1);
            assert(dedup_by_id(s) == d.push(x));
            assert forall|i: int| 0 <= i < idx.len() implies 0 <= #[trigger] idx[i] < s.len() && dedup_by_id(s)[i] == s[idx[i]] by {
                if i < it.len() {
                    assert(idx[i] == it[i]);
                    assert(s[it[i]] == t[it[i]]);
                }
            }
            assert forall|i: int, j: int| 0 <= i < j < idx.len() implies #[trigger] idx[i] < #[trigger] idx[j] by {
                if j < it.len() {
                    assert(idx[i] == it[i] && idx[j] == it[j]);
                } else {
                    assert(idx[i] == it[i]);
                }
            }
            assert forall|i: int, k: int| 0 <= i < idx.len() && 0 <= k < #[trigger] idx[i] implies (#[trigger] s[k]).id != s[idx[i]].id by {
                if i < it.len() {
                    assert(idx[i] == it[i]);
                    assert(s[k] == t[k]);
                    assert(s[it[i]] == t[it[i]]);
                } else {
                    assert(s[k] == t[k]);
                    let w = choose|w: int| 0 <= w < d.len() && #[trigger] d[w].id == (#[trigger] t[k]).id;
                    assert(d[w].id == t[k].id);
                }
            }
            idx
        }
    }
}

/// A soundboard's rows hold one to five buttons each, and read in order they
/// give the sounds in order.
pub proof fn lemma_rows_of(s: Seq<Sound>)
    ensures
        forall|r: int| 0 <= r < rows_of(s).len() ==> 1 <= (#[trigger] rows_of(s)[r]).len() <= 5,
        forall|i: int| 0 <= i < s.len() ==> #[trigger] s[i] == rows_of(s)[i / 5][i % 5],
{
    assert forall|r: int| 0 <= r < rows_of(s).len() implies 1 <= (#[trigger] rows_of(s)[r]).len() <= 5 by {
        assert(5 * r < s.len()) by (nonlinear_arith)
            requires 0 <= r < (s.len() + 4) / 5;
    }
    assert forall|i: int| 0 <= i < s.len() implies #[trigger] s[i] == rows_of(s)[i / 5][i % 5] by {
        assert(0 <= i / 5 < (s.len() + 4) / 5 && 5 * (i / 5) + i % 5 == i && 0 <= i % 5 < 5) by (nonlinear_arith)
            requires 0 <= i < s.len();
    }
}

/// The rows of a soundboard: the sounds in order, five to a row.
pub open spec fn rows_of(s: Seq<Sound>) -> Seq<Seq<Sound>> {
    Seq::new(
        ((s.len() + 4) / 5) as nat,
        |r: int| s.subrange(5 * r, if 5 * r + 5 <= s.len() { 5 * r + 5 } else { s.len() as int }),
    )
}

/// The button that plays a sound: its name as label, its ID as the button's ID.
pub open spec fn sound_button(b: Button, s: Sound) -> bool {
    &&& b.custom_id@ == decimal(s.id as nat)
    &&& b.style == ButtonStyle::Primary
    &&& b.label@ == s.name@
    &&& !b.disabled
}

/// The buttons of a soundboard, in rows of five (see [`rows_of`]).
pub fn soundboard_rows(sounds: &Vec<Sound>) -> (res: Vec<Vec<Button>>)
    ensures
        res@.len() == rows_of(sounds@).len(),
        forall|r: int| 0 <= r < res@.len() ==> {
            &&& (#[trigger] res@[r])@.len() == rows_of(sounds@)[r].len()
            &&& forall|k: int| 0 <= k < res@[r]@.len() ==> sound_button(#[trigger] res@[r]@[k], rows_of(sounds@)[r][k])
        },
{
    let ghost rows = rows_of(sounds@);
    let n = sounds.len();
    let nrows: usize = n / 5 + if n % 5 > 0 { 1 } else { 0 };
    assert(nrows as int == (n as int + 4) / 5) by (nonlinear_arith)
        requires nrows as int == n as int / 5 + if n as int % 5 > 0 { 1int } else { 0int }, n >= 0;
    let mut res: Vec<Vec<Button>> = Vec::new();
    let mut r: usize = 0;
    while r < nrows
        invariant
            n == sounds@.len(),
            rows == rows_of(sounds@),
            nrows == rows.len(),
            nrows as int == (n as int + 4) / 5,
            r <= nrows,
            res@.len() == r,
            forall|q: int| 0 <= q < res@.len() ==> {
                &&& (#[trigger] res@[q])@.len() == rows[q].len()
                &&& forall|k: int| 0 <= k < res@[q]@.len() ==> sound_button(#[trigger] res@[q]@[k], rows[q][k])
            },
        decreases nrows - r,
    {
        assert(5 * r < n) by (nonlinear_arith)
            requires r < nrows, nrows as int == (n as int + 4) / 5;
        let start = 5 * r;
        let end = if n - start > 5 { start + 5 } else { n };
        assert(rows[r as int] == sounds@.subrange(start as int, end as int));
        let mut row: Vec<Button> = Vec::new();
        let mut k = start;
        while k < end
            invariant
                start <= k <= end,
                end <= n,
                n == sounds@.len(),
                row@.len() == k - start,
                forall|q: int| 0 <= q < row@.len() ==> sound_button(#[trigger] row@[q], sounds@[start + q]),
            decreases end - k,
        {
            let s = &sounds[k];
            row.push(Button {
                custom_id: decimal_string(s.id as u64),
                style: ButtonStyle::Primary,
                label: s.name.clone(),
                disabled: false,
            });
            k = k + 1;
        }
        let ghost rr = r as int;
        res.push(row);
        assert forall|q: int| 0 <= q < res@[rr]@.len() implies sound_button(#[trigger] res@[rr]@[q], rows[rr][q]) by {
            assert(rows[rr][q] == sounds@[start + q]);
        }
        r = r + 1;
    }
    assert(res@.len() == rows.len());
    res
}

} // verus!
