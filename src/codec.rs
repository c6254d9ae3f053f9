//! The tag mapping between document trees and the flat stream of tagged
//! tokens that a wire reader produces and a wire writer consumes.
//!
//! A present field is emitted under its tag; an absent optional field emits
//! nothing; a repeated field emits one entry per element, in order, all under
//! its tag; a record or a choice is an open token, its children, and a close
//! token; a choice holds only the entry of its populated alternative.
use vstd::prelude::*;
use vstd::std_specs::vec::axiom_vec_index_decreases;

use crate::error::{is_standard, ValidationError, CARDINALITY, UNKNOWN_TAG};
use crate::facet::{duplicate_facets, same_rules, Facet, Scalar};
use crate::field::{Field, Member};

verus! {

/// One token of the wire stream.
#[derive(Debug, Clone, PartialEq, Eq)]
pub enum Token {
    /// Start of a record or choice under a tag.
    Open(String),
    /// End of the innermost open record or choice.
    Close,
    Text(String, String),
    Flag(String, bool),
    Number(String, i64),
}

/// What a token denotes.
pub enum Event {
    Open(Seq<char>),
    Close,
    Text(Seq<char>, Seq<char>),
    Flag(Seq<char>, bool),
    Number(Seq<char>, i64),
}

impl Token {
    pub open spec fn event(self) -> Event {
        match self {
            Token::Open(t) => Event::Open(t@),
            Token::Close => Event::Close,
            Token::Text(t, v) => Event::Text(t@, v@),
            Token::Flag(t, b) => Event::Flag(t@, b),
            Token::Number(t, n) => Event::Number(t@, n),
        }
    }
}

pub open spec fn events(tokens: Seq<Token>) -> Seq<Event> {
    tokens.map_values(|t: Token| t.event())
}

/// The entries that a field emits under a tag.
pub open spec fn member_events(tag: Seq<char>, f: Field) -> Seq<Event>
    decreases f, 0int,
{
    match f {
        Field::Scalar { value, facets } => match value {
            Scalar::Text(t) => seq![Event::Text(tag, t@)],
            Scalar::Flag(b) => seq![Event::Flag(tag, b)],
            Scalar::Number(n) => seq![Event::Number(tag, n)],
        },
        Field::Optional(inner) => match inner {
            Some(g) => member_events(tag, *g),
            None => Seq::empty(),
        },
        Field::Repeated { min, items } => items_events(tag, items@, items@.len() as int),
        Field::Composite(members) => seq![Event::Open(tag)] + members_events(
            members@,
            members@.len() as int,
        ) + seq![Event::Close],
        Field::Choice(m) => seq![Event::Open(tag)] + member_events(m.tag@, m.field) + seq![
            Event::Close,
        ],
    }
}

/// The entries of the first `n` elements of a repeated field, in order.
pub open spec fn items_events(tag: Seq<char>, items: Seq<Field>, n: int) -> Seq<Event>
    decreases items, n,
{
    if 0 < n <= items.len() {
        items_events(tag, items, n - 1) + member_events(tag, items[n - 1])
    } else {
        Seq::empty()
    }
}

/// The entries of the first `n` members of a record, in order.
pub open spec fn members_events(members: Seq<Member>, n: int) -> Seq<Event>
    decreases members, n,
{
    if 0 < n <= members.len() {
        members_events(members, n - 1) + member_events(members[n - 1].tag@, members[n - 1].field)
    } else {
        Seq::empty()
    }
}

fn push_token(out: &mut Vec<Token>, t: Token)
    ensures
        events(final(out)@) == events(old(out)@) + seq![t.event()],
{
    let ghost before = out@;
    out.push(t);
    assert(events(out@) =~= events(before) + seq![t.event()]);
}

/// Appends the entries that a field emits under a tag.
pub fn encode_into(tag: &String, f: &Field, out: &mut Vec<Token>)
    ensures
        events(final(out)@) == events(old(out)@) + member_events(tag@, *f),
    decreases f,
{
    let ghost start = events(out@);
    match f {
        Field::Scalar { value, facets } => match value {
            Scalar::Text(t) => push_token(out, Token::Text(tag.clone(), t.clone())),
            Scalar::Flag(b) => push_token(out, Token::Flag(tag.clone(), *b)),
            Scalar::Number(n) => push_token(out, Token::Number(tag.clone(), *n)),
        },
        Field::Optional(inner) => match inner {
            Some(g) => encode_into(tag, g, out),
            None => {
                assert(events(out@) =~= start + member_events(tag@, *f));
            },
        },
        Field::Repeated { min, items } => {
            let mut i: usize = 0;
            assert(events(out@) =~= start + items_events(tag@, items@, 0));
            while i < items.len()
                invariant
                    f is Repeated,
                    f->Repeated_items == *items,
                    i <= items@.len(),
                    events(out@) == start + items_events(tag@, items@, i as int),
                decreases items@.len() - i,
            {
                proof {
                    axiom_vec_index_decreases(*items, i as int);
                }
                encode_into(tag, &items[i], out);
                assert(events(out@) =~= start + items_events(tag@, items@, i + 1));
                i += 1;
            }
        },
        Field::Composite(members) => {
            push_token(out, Token::Open(tag.clone()));
            let mut i: usize = 0;
            assert(events(out@) =~= start + seq![Event::Open(tag@)] + members_events(members@, 0));
            while i < members.len()
                invariant
                    f is Composite,
                    f->Composite_0 == *members,
                    i <= members@.len(),
                    events(out@) == start + seq![Event::Open(tag@)] + members_events(
                        members@,
                        i as int,
                    ),
                decreases members@.len() - i,
            {
                proof {
                    axiom_vec_index_decreases(*members, i as int);
                }
                encode_into(&members[i].tag, &members[i].field, out);
                assert(events(out@) =~= start + seq![Event::Open(tag@)] + members_events(
                    members@,
                    i + 1,
                ));
                i += 1;
            }
            push_token(out, Token::Close);
            assert(events(out@) =~= start + member_events(tag@, *f));
        },
        Field::Choice(m) => {
            push_token(out, Token::Open(tag.clone()));
            encode_into(&m.tag, &m.field, out);
            push_token(out, Token::Close);
            assert(events(out@) =~= start + member_events(tag@, *f));
        },
    }
}

/// The token stream of a field under a tag.
pub fn encode(tag: &String, f: &Field) -> (r: Vec<Token>)
    ensures
        events(r@) == member_events(tag@, *f),
{
    let mut out: Vec<Token> = Vec::new();
    assert(events(out@) =~= Seq::<Event>::empty());
    encode_into(tag, f, &mut out);
    assert(events(out@) =~= member_events(tag@, *f));
    out
}

/// How often a child appears in its record.
#[derive(Debug, Clone, Copy, PartialEq, Eq)]
pub enum Presence {
    Required,
    Optional,
    Repeated { min: usize },
}

/// The declared shape of a value, as a decoder needs it.
#[derive(Debug)]
pub enum Shape {
    Text(Vec<Facet>),
    Flag,
    Number(Vec<Facet>),
    /// A record of children in declared order.
    Composite(Vec<Slot>),
    /// A choice among alternatives, exactly one of which is present.
    Choice(Vec<Slot>),
}

/// A declared child of a record, or an alternative of a choice.
#[derive(Debug)]
pub struct Slot {
    pub name: String,
    pub tag: String,
    pub presence: Presence,
    pub shape: Shape,
}

/// The tag that an entry carries; a close token carries none.
pub open spec fn event_tag(e: Event) -> Option<Seq<char>> {
    match e {
        Event::Open(t) => Some(t),
        Event::Close => None,
        Event::Text(t, _) => Some(t),
        Event::Flag(t, _) => Some(t),
        Event::Number(t, _) => Some(t),
    }
}

/// The error that a stream which does not decode gets.
pub open spec fn decode_error(e: ValidationError) -> bool {
    e.code == CARDINALITY && is_standard(e)
}

/// Whether a slot, or anything below it, is declared under a tag.
pub open spec fn declares(slot: Slot, tag: Seq<char>) -> bool
    decreases slot, 1int,
{
    slot.tag@ == tag || shape_declares(slot.shape, tag)
}

/// Whether a shape declares a child or alternative, at any depth, under a tag.
pub open spec fn shape_declares(shape: Shape, tag: Seq<char>) -> bool
    decreases shape, 0int,
{
    match shape {
        Shape::Composite(slots) => exists|i: int|
            0 <= i < slots@.len() && declares(#[trigger] slots@[i], tag),
        Shape::Choice(slots) => exists|i: int|
            0 <= i < slots@.len() && declares(#[trigger] slots@[i], tag),
        _ => false,
    }
}

/// Whether a stream holds an entry under a tag that `root` declares nowhere.
pub open spec fn has_unknown_tag(root: Slot, ev: Seq<Event>) -> bool {
    exists|i: int|
        0 <= i < ev.len() && match event_tag(#[trigger] ev[i]) {
            Some(t) => !declares(root, t),
            None => false,
        }
}

fn tag_is(t: &Token, tag: &String) -> (r: bool)
    ensures
        r == (event_tag(t.event()) == Some(tag@)),
{
    match t {
        Token::Open(x) => *x == *tag,
        Token::Close => false,
        Token::Text(x, _) => *x == *tag,
        Token::Flag(x, _) => *x == *tag,
        Token::Number(x, _) => *x == *tag,
    }
}

proof fn lemma_items_events_prefix(tag: Seq<char>, a: Seq<Field>, b: Seq<Field>, n: int)
    requires
        0 <= n <= a.len(),
        n <= b.len(),
        forall|j: int| 0 <= j < n ==> a[j] == b[j],
    ensures
        items_events(tag, a, n) == items_events(tag, b, n),
    decreases n,
{
    if n > 0 {
        lemma_items_events_prefix(tag, a, b, n - 1);
    }
}

proof fn lemma_members_events_prefix(a: Seq<Member>, b: Seq<Member>, n: int)
    requires
        0 <= n <= a.len(),
        n <= b.len(),
        forall|j: int| 0 <= j < n ==> a[j] == b[j],
    ensures
        members_events(a, n) == members_events(b, n),
    decreases n,
{
    if n > 0 {
        lemma_members_events_prefix(a, b, n - 1);
    }
}

/// Whether the stream holds, from `pos` on, exactly the entries of `f`
/// under `tag`.
pub open spec fn holds_at(ev: Seq<Event>, pos: int, tag: Seq<char>, f: Field) -> bool {
    &&& 0 <= pos
    &&& pos + member_events(tag, f).len() <= ev.len()
    &&& ev.subrange(pos, pos + member_events(tag, f).len()) == member_events(tag, f)
}

/// Decodes one entry under `tag` that starts at `pos`. Where the stream holds
/// there the entry of a field that conforms to `shape`, decoding takes all of
/// it and no more.
fn decode_entry(
    shape: &Shape,
    tag: &String,
    tokens: &Vec<Token>,
    pos: usize,
    target: Ghost<Field>,
) -> (r: Result<(Field, usize), ValidationError>)
    ensures
        match r {
            Ok((f, p)) => pos < p <= tokens@.len() && member_events(tag@, f) == events(
                tokens@,
            ).subrange(pos as int, p as int) && entry_fits(f, *shape),
            Err(e) => decode_error(e),
        },
        (entry_conforms(target@, *shape) && holds_at(events(tokens@), pos as int, tag@, target@))
            ==> (r is Ok && r->Ok_0.1 == pos + member_events(tag@, target@).len()),
    decreases shape,
{
    let ghost ev = events(tokens@);
    let ghost want = member_events(tag@, target@);
    let ghost premise = entry_conforms(target@, *shape) && holds_at(ev, pos as int, tag@, target@);
    proof {
        if premise {
            lemma_entry_nonempty(tag@, target@, *shape);
            assert(ev.subrange(pos as int, pos + want.len())[0] == ev[pos as int]);
        }
    }
    if pos >= tokens.len() || !tag_is(&tokens[pos], tag) {
        return Err(ValidationError::of_code(CARDINALITY));
    }
    proof {
        if premise {
            assert(ev.subrange(pos as int, pos + want.len())[0] == ev[pos as int]);
            assert(ev[pos as int] == tokens@[pos as int].event());
        }
    }
    match shape {
        Shape::Text(facets) => {
            if let Token::Text(_, v) = &tokens[pos] {
                let f = Field::Scalar { value: Scalar::Text(v.clone()), facets: duplicate_facets(facets) };
                assert(ev.subrange(pos as int, pos + 1) =~= member_events(tag@, f));
                Ok((f, pos + 1))
            } else {
                Err(ValidationError::of_code(CARDINALITY))
            }
        },
        Shape::Flag => {
            if let Token::Flag(_, b) = &tokens[pos] {
                let f = Field::Scalar { value: Scalar::Flag(*b), facets: Vec::new() };
                assert(ev.subrange(pos as int, pos + 1) =~= member_events(tag@, f));
                Ok((f, pos + 1))
            } else {
                Err(ValidationError::of_code(CARDINALITY))
            }
        },
        Shape::Number(facets) => {
            if let Token::Number(_, n) = &tokens[pos] {
                let f = Field::Scalar { value: Scalar::Number(*n), facets: duplicate_facets(facets) };
                assert(ev.subrange(pos as int, pos + 1) =~= member_events(tag@, f));
                Ok((f, pos + 1))
            } else {
                Err(ValidationError::of_code(CARDINALITY))
            }
        },
        Shape::Composite(slots) => {
            if !matches!(tokens[pos], Token::Open(_)) {
                return Err(ValidationError::of_code(CARDINALITY));
            }
            let ghost ms = target@->Composite_0@;
            let ghost inner = members_events(ms, ms.len() as int);
            proof {
                if premise {
                    assert(want == seq![Event::Open(tag@)] + inner + seq![Event::Close]);
                    assert(ev.subrange(pos + 1, pos + 1 + inner.len()) =~= want.subrange(
                        1,
                        (1 + inner.len()) as int,
                    ));
                    assert(ev[pos + 1 + inner.len()] == ev.subrange(
                        pos as int,
                        pos + want.len(),
                    )[(1 + inner.len()) as int]);
                    assert(want[(1 + inner.len()) as int] == Event::Close);
                    assert(want.subrange(1, (1 + inner.len()) as int) =~= inner);
                }
            }
            let (members, p) = decode_record(slots, tokens, pos + 1, target)?;
            assert(ev.len() == tokens@.len());
            if p >= tokens.len() {
                return Err(ValidationError::of_code(CARDINALITY));
            }
            if !matches!(tokens[p], Token::Close) {
                return Err(ValidationError::of_code(CARDINALITY));
            }
            let f = Field::Composite(members);
            proof {
                assert(ev.subrange(pos as int, p + 1) =~= seq![ev[pos as int]] + ev.subrange(
                    pos + 1,
                    p as int,
                ) + seq![ev[p as int]]);
            }
            Ok((f, p + 1))
        },
        Shape::Choice(alternatives) => {
            if !matches!(tokens[pos], Token::Open(_)) {
                return Err(ValidationError::of_code(CARDINALITY));
            }
            let q = pos + 1;
            let ghost m = target@->Choice_0;
            let ghost inner = member_events(m.tag@, m.field);
            let ghost kk: int = 0;
            proof {
                if premise {
                    kk = choose|k: int|
                        0 <= k < alternatives@.len() && (#[trigger] alternatives@[k]).tag@
                            == m.tag@ && entry_conforms(m.field, alternatives@[k].shape);
                    lemma_entry_nonempty(m.tag@, m.field, alternatives@[kk].shape);
                    assert(want == seq![Event::Open(tag@)] + inner + seq![Event::Close]);
                    assert(ev.subrange(q as int, q + inner.len()) =~= want.subrange(
                        1,
                        (1 + inner.len()) as int,
                    ));
                    assert(want.subrange(1, (1 + inner.len()) as int) =~= inner);
                    assert(ev[q as int] == ev.subrange(q as int, q + inner.len())[0]);
                    assert(ev[q as int] == tokens@[q as int].event());
                    assert(ev[q + inner.len()] == ev.subrange(
                        pos as int,
                        pos + want.len(),
                    )[(1 + inner.len()) as int]);
                }
            }
            if q >= tokens.len() {
                return Err(ValidationError::of_code(CARDINALITY));
            }
            let mut k: usize = 0;
            while k < alternatives.len() && !tag_is(&tokens[q], &alternatives[k].tag)
                invariant
                    k <= alternatives@.len(),
                    q < tokens@.len(),
                    forall|j: int|
                        0 <= j < k ==> event_tag(tokens@[q as int].event()) != Some(
                            #[trigger] alternatives@[j].tag@,
                        ),
                decreases alternatives@.len() - k,
            {
                k += 1;
            }
            if k == alternatives.len() {
                proof {
                    if premise {
                        assert(event_tag(tokens@[q as int].event()) == Some(
                            alternatives@[kk].tag@,
                        ));
                    }
                }
                return Err(ValidationError::of_code(CARDINALITY));
            }
            proof {
                axiom_vec_index_decreases(*alternatives, k as int);
                if premise {
                    if k < kk {
                        assert(alternatives@[k as int].tag@ != alternatives@[kk].tag@);
                    }
                    if kk < k {
                        assert(event_tag(tokens@[q as int].event()) != Some(
                            alternatives@[kk].tag@,
                        ));
                    }
                    assert(k == kk);
                }
            }
            let alt = &alternatives[k];
            let (g, p) = decode_entry(&alt.shape, &alt.tag, tokens, q, Ghost(m.field))?;
            if p >= tokens.len() || !matches!(tokens[p], Token::Close) {
                return Err(ValidationError::of_code(CARDINALITY));
            }
            let m2 = Member { name: alt.name.clone(), tag: alt.tag.clone(), field: g };
            let f = Field::Choice(Box::new(m2));
            proof {
                assert(alternatives@[k as int].tag@ == m2.tag@ && entry_fits(
                    m2.field,
                    alternatives@[k as int].shape,
                ));
                assert(ev.subrange(pos as int, p + 1) =~= seq![ev[pos as int]] + ev.subrange(
                    q as int,
                    p as int,
                ) + seq![ev[p as int]]);
            }
            Ok((f, p + 1))
        },
    }
}

/// Decodes the entries of a declared child that start at `pos`: one for a
/// required child, at most one for an optional one, and every consecutive
/// entry under its tag for a repeated one. Where the stream holds there the
/// entries of a conforming field, and what follows is not under the child's
/// tag, decoding takes exactly those entries.
fn decode_child(slot: &Slot, tokens: &Vec<Token>, pos: usize, target: Ghost<Field>) -> (r: Result<
    (Field, usize),
    ValidationError,
>)
    requires
        pos <= tokens@.len(),
    ensures
        match r {
            Ok((f, p)) => pos <= p <= tokens@.len() && member_events(slot.tag@, f) == events(
                tokens@,
            ).subrange(pos as int, p as int) && child_fits(f, *slot),
            Err(e) => decode_error(e),
        },
        ({
            let end = pos + member_events(slot.tag@, target@).len();
            (child_conforms(target@, *slot) && holds_at(events(tokens@), pos as int, slot.tag@, target@)
                && (end < tokens@.len() ==> event_tag(events(tokens@)[end]) != Some(slot.tag@)))
                ==> (r is Ok && r->Ok_0.1 == end)
        }),
    decreases slot,
{
    let ghost ev = events(tokens@);
    let ghost want = member_events(slot.tag@, target@);
    let ghost premise = child_conforms(target@, *slot) && holds_at(ev, pos as int, slot.tag@, target@)
        && (pos + want.len() < tokens@.len() ==> event_tag(ev[pos + want.len()]) != Some(slot.tag@));
    match slot.presence {
        Presence::Required => decode_entry(&slot.shape, &slot.tag, tokens, pos, target),
        Presence::Optional => {
            let ghost g = match target@->Optional_0 {
                Some(b) => *b,
                None => target@,
            };
            proof {
                if premise && target@->Optional_0 is Some {
                    lemma_entry_nonempty(slot.tag@, g, slot.shape);
                    assert(ev.subrange(pos as int, pos + want.len())[0] == ev[pos as int]);
                    assert(ev[pos as int] == tokens@[pos as int].event());
                }
                if premise && target@->Optional_0 is None && pos < tokens@.len() {
                    assert(ev[pos as int] == tokens@[pos as int].event());
                }
            }
            if pos < tokens.len() && tag_is(&tokens[pos], &slot.tag) {
                let (h, p) = decode_entry(&slot.shape, &slot.tag, tokens, pos, Ghost(g))?;
                Ok((Field::Optional(Some(Box::new(h))), p))
            } else {
                let f = Field::Optional(None);
                assert(ev.subrange(pos as int, pos as int) =~= member_events(slot.tag@, f));
                Ok((f, pos))
            }
        },
        Presence::Repeated { min } => {
            let ghost fitems = target@->Repeated_items@;
            let ghost n = fitems.len() as int;
            let mut items: Vec<Field> = Vec::new();
            let mut q: usize = pos;
            assert(ev.subrange(pos as int, pos as int) =~= items_events(slot.tag@, items@, 0));
            while q < tokens.len() && tag_is(&tokens[q], &slot.tag)
                invariant
                    pos <= q <= tokens@.len(),
                    ev == events(tokens@),
                    slot.presence == (Presence::Repeated { min }),
                    forall|j: int| 0 <= j < items@.len() ==> entry_fits(#[trigger] items@[j], slot.shape),
                    items_events(slot.tag@, items@, items@.len() as int) == ev.subrange(
                        pos as int,
                        q as int,
                    ),
                    premise == (child_conforms(target@, *slot) && holds_at(ev, pos as int, slot.tag@, target@)
                        && (pos + want.len() < tokens@.len() ==> event_tag(ev[pos + want.len()])
                        != Some(slot.tag@))),
                    want == member_events(slot.tag@, target@),
                    premise ==> fitems == target@->Repeated_items@ && n == fitems.len()
                        && want == items_events(slot.tag@, fitems, n),
                    premise ==> items@.len() <= n && q == pos + items_events(
                        slot.tag@,
                        fitems,
                        items@.len() as int,
                    ).len(),
                decreases tokens@.len() - q,
            {
                let ghost j = items@.len() as int;
                proof {
                    if premise {
                        if j == n {
                            assert(ev[q as int] == tokens@[q as int].event());
                        }
                        assert(j < n);
                        lemma_items_events_grow(slot.tag@, fitems, j + 1, n);
                        lemma_items_events_grow(slot.tag@, fitems, j, j + 1);
                        let before = items_events(slot.tag@, fitems, j);
                        let one = member_events(slot.tag@, fitems[j]);
                        assert(items_events(slot.tag@, fitems, j + 1) == before + one);
                        assert(want.subrange(0, (before.len() + one.len()) as int) == before + one);
                        lemma_middle(want, before, one);
                        assert(ev.subrange(q as int, q + one.len()) =~= want.subrange(
                            before.len() as int,
                            (before.len() + one.len()) as int,
                        ));
                    }
                }
                let ghost next = if j < n {
                    fitems[j]
                } else {
                    target@
                };
                proof {
                    if premise {
                    }
                }
                let (g, p) = decode_entry(&slot.shape, &slot.tag, tokens, q, Ghost(next))?;
                let ghost old_items = items@;
                items.push(g);
                proof {
                    lemma_items_events_prefix(slot.tag@, old_items, items@, old_items.len() as int);
                    assert(ev.subrange(pos as int, p as int) =~= ev.subrange(pos as int, q as int)
                        + ev.subrange(q as int, p as int));
                }
                q = p;
            }
            proof {
                if premise && items@.len() < n {
                    let j = items@.len() as int;
                    lemma_items_events_grow(slot.tag@, fitems, j + 1, n);
                    let before = items_events(slot.tag@, fitems, j);
                    let one = member_events(slot.tag@, fitems[j]);
                    assert(items_events(slot.tag@, fitems, j + 1) == before + one);
                    lemma_entry_nonempty(slot.tag@, fitems[j], slot.shape);
                    assert(want.subrange(0, (before.len() + one.len()) as int) == before + one);
                    assert(want.subrange(0, (before.len() + one.len()) as int)[before.len() as int]
                        == want[before.len() as int]);
                    assert(want[before.len() as int] == one[0]);
                    assert(ev.subrange(pos as int, pos + want.len())[before.len() as int]
                        == ev[q as int]);
                    assert(ev[q as int] == tokens@[q as int].event());
                }
            }
            Ok((Field::Repeated { min, items }, q))
        },
    }
}

/// Whether the stream holds, from `pos` on, exactly the entries of the
/// members of a record, followed by a close token.
pub open spec fn record_at(ev: Seq<Event>, pos: int, members: Seq<Member>) -> bool {
    let inner = members_events(members, members.len() as int);
    &&& 0 <= pos
    &&& pos + inner.len() < ev.len()
    &&& ev.subrange(pos, pos + inner.len()) == inner
    &&& ev[pos + inner.len()] == Event::Close
}

/// Decodes the children of a record, in declared order, from `pos` on.
/// Where the stream holds there the members of a record that conforms to
/// the slots, then a close token, decoding takes exactly those members.
fn decode_record(slots: &Vec<Slot>, tokens: &Vec<Token>, pos: usize, target: Ghost<Field>) -> (r: Result<
    (Vec<Member>, usize),
    ValidationError,
>)
    requires
        pos <= tokens@.len(),
    ensures
        match r {
            Ok((ms, p)) => pos <= p <= tokens@.len() && members_events(ms@, ms@.len() as int)
                == events(tokens@).subrange(pos as int, p as int) && entry_fits(
                Field::Composite(ms),
                Shape::Composite(*slots),
            ),
            Err(e) => decode_error(e),
        },
        (entry_conforms(target@, Shape::Composite(*slots)) && record_at(
            events(tokens@),
            pos as int,
            target@->Composite_0@,
        )) ==> (r is Ok && r->Ok_0.1 == pos + members_events(
            target@->Composite_0@,
            target@->Composite_0@.len() as int,
        ).len()),
    decreases slots,
{
    let ghost ev = events(tokens@);
    let ghost ms = target@->Composite_0@;
    let ghost n = ms.len() as int;
    let ghost whole = members_events(ms, n);
    let ghost premise = entry_conforms(target@, Shape::Composite(*slots)) && record_at(
        ev,
        pos as int,
        ms,
    );
    let mut members: Vec<Member> = Vec::new();
    let mut q: usize = pos;
    let mut i: usize = 0;
    assert(ev.subrange(pos as int, pos as int) =~= members_events(members@, 0));
    while i < slots.len()
        invariant
            i <= slots@.len(),
            pos <= q <= tokens@.len(),
            ev == events(tokens@),
            members@.len() == i,
            forall|j: int|
                0 <= j < i ==> (#[trigger] members@[j]).tag@ == slots@[j].tag@ && child_fits(
                    members@[j].field,
                    slots@[j],
                ),
            members_events(members@, members@.len() as int) == ev.subrange(pos as int, q as int),
            premise == (entry_conforms(target@, Shape::Composite(*slots)) && record_at(
                ev,
                pos as int,
                ms,
            )),
            ms == target@->Composite_0@,
            n == ms.len(),
            whole == members_events(ms, n),
            premise ==> q == pos + members_events(ms, i as int).len(),
        decreases slots@.len() - i,
    {
        proof {
            axiom_vec_index_decreases(*slots, i as int);
        }
        let slot = &slots[i];
        let ghost f = ms[i as int].field;
        let ghost one = member_events(slot.tag@, f);
        proof {
            if premise {
                assert(n == slots@.len());
                assert(ms[i as int].tag@ == slots@[i as int].tag@);
                lemma_members_events_grow(ms, i + 1, n);
                lemma_members_events_grow(ms, i as int, i + 1);
                let before = members_events(ms, i as int);
                assert(members_events(ms, i + 1) == before + one);
                assert(ev.subrange(q as int, q + one.len()) =~= whole.subrange(
                    before.len() as int,
                    (before.len() + one.len()) as int,
                ));
                lemma_middle(whole, before, one);
                let end = q + one.len();
                if end < pos + whole.len() {
                    lemma_next_member_tag(ms, i as int, n);
                    let j = choose|j: int|
                        i < j < n && event_tag(whole[members_events(ms, i + 1).len() as int])
                            == Some(#[trigger] ms[j].tag@);
                    assert(ms[j].tag@ == slots@[j].tag@);
                    assert(ev[end] == whole[members_events(ms, i + 1).len() as int]);
                } else {
                    assert(end == pos + whole.len());
                }
                if slot.presence is Required {
                    assert(child_conforms(f, *slot));
                    lemma_entry_nonempty(slot.tag@, f, slot.shape);
                    assert(ev[q as int] == ev.subrange(q as int, q + one.len())[0]);
                    assert(ev[q as int] == tokens@[q as int].event());
                }
            }
        }
        if let Presence::Required = slot.presence {
            if q >= tokens.len() {
                return Err(ValidationError::of_code(CARDINALITY));
            }
            if !tag_is(&tokens[q], &slot.tag) {
                return Err(ValidationError::of_code(CARDINALITY));
            }
        }
        let (g, p) = decode_child(slot, tokens, q, Ghost(f))?;
        let ghost old_members = members@;
        members.push(Member { name: slot.name.clone(), tag: slot.tag.clone(), field: g });
        proof {
            lemma_members_events_prefix(old_members, members@, old_members.len() as int);
            assert(ev.subrange(pos as int, p as int) =~= ev.subrange(pos as int, q as int)
                + ev.subrange(q as int, p as int));
            if premise {
                assert(members_events(ms, i + 1) == members_events(ms, i as int) + one);
            }
        }
        q = p;
        i += 1;
    }
    Ok((members, q))
}

/// Decodes a whole token stream as one field declared by `root`.
///
/// Whatever it returns fits `root` and encodes back to exactly the stream
/// it was given; and the stream of any field that conforms to `root`
/// decodes. For a well-formed `root`, these are the only streams that
/// decode. A stream that does not decode fails with `UNKNOWN_TAG` when it
/// holds a tag that `root` declares nowhere, and otherwise with
/// `CARDINALITY` (a missing required entry, a repeated singular one, one
/// out of declared order or place, or a value of the wrong kind).
pub fn decode(root: &Slot, tokens: &Vec<Token>) -> (r: Result<Field, ValidationError>)
    ensures
        match r {
            Ok(f) => member_events(root.tag@, f) == events(tokens@) && child_fits(f, *root),
            Err(e) => is_standard(e) && e.code == (if has_unknown_tag(*root, events(tokens@)) {
                UNKNOWN_TAG
            } else {
                CARDINALITY
            }),
        },
        (exists|f: Field| child_conforms(f, *root) && member_events(root.tag@, f) == events(tokens@))
            ==> r is Ok,
        slot_wf(*root) ==> (r is Ok <==> exists|f: Field|
            child_conforms(f, *root) && member_events(root.tag@, f) == events(tokens@)),
{
    let ghost target = choose|f: Field|
        child_conforms(f, *root) && member_events(root.tag@, f) == events(tokens@);
    proof {
        if child_conforms(target, *root) && member_events(root.tag@, target) == events(tokens@) {
            assert(events(tokens@).subrange(0, events(tokens@).len() as int) =~= events(tokens@));
        }
    }
    let parsed = decode_child(root, tokens, 0, Ghost(target));
    let (f, p) = match parsed {
        Ok((f, p)) if p == tokens.len() => (f, p),
        _ => {
            if has_undeclared_tag(root, tokens) {
                return Err(ValidationError::of_code(UNKNOWN_TAG));
            }
            return Err(ValidationError::of_code(CARDINALITY));
        },
    };
    assert(events(tokens@).subrange(0, p as int) =~= events(tokens@));
    proof {
        if slot_wf(*root) {
            lemma_child_fits_conforms(f, *root);
        }
    }
    Ok(f)
}

/// Whether a field is one entry of a shape: scalars of the declared kind
/// that carry the declared facets, records with one member per slot under
/// the slot's tag, choices holding one declared alternative.
pub open spec fn entry_fits(f: Field, shape: Shape) -> bool
    decreases shape, 0int,
{
    match shape {
        Shape::Text(facets) => f is Scalar && f->Scalar_value is Text && same_rules(
            f->Scalar_facets@,
            facets@,
        ),
        Shape::Flag => f is Scalar && f->Scalar_value is Flag && f->Scalar_facets@.len() == 0,
        Shape::Number(facets) => f is Scalar && f->Scalar_value is Number && same_rules(
            f->Scalar_facets@,
            facets@,
        ),
        Shape::Composite(slots) => {
            &&& f is Composite
            &&& f->Composite_0@.len() == slots@.len()
            &&& forall|i: int|
                0 <= i < slots@.len() ==> (#[trigger] f->Composite_0@[i]).tag@ == slots@[i].tag@
                    && child_fits(f->Composite_0@[i].field, slots@[i])
        },
        Shape::Choice(alternatives) => {
            &&& f is Choice
            &&& exists|k: int|
                0 <= k < alternatives@.len() && (#[trigger] alternatives@[k]).tag@
                    == f->Choice_0.tag@ && entry_fits(f->Choice_0.field, alternatives@[k].shape)
        },
    }
}

/// Whether a field fits a declared child, by its presence.
pub open spec fn child_fits(f: Field, slot: Slot) -> bool
    decreases slot, 0int,
{
    match slot.presence {
        Presence::Required => entry_fits(f, slot.shape),
        Presence::Optional => f is Optional && match f->Optional_0 {
            Some(g) => entry_fits(*g, slot.shape),
            None => true,
        },
        Presence::Repeated { min } => f is Repeated && f->Repeated_min == min && forall|i: int|
            0 <= i < f->Repeated_items@.len() ==> entry_fits(
                #[trigger] f->Repeated_items@[i],
                slot.shape,
            ),
    }
}

/// Sibling slots carry pairwise distinct tags.
pub open spec fn distinct_tags(slots: Seq<Slot>) -> bool {
    forall|i: int, j: int| 0 <= i < j < slots.len() ==> slots[i].tag@ != slots[j].tag@
}

/// Whether a field is one entry of a shape, with every record and choice
/// below it declared with distinct sibling tags.
pub open spec fn entry_conforms(f: Field, shape: Shape) -> bool
    decreases shape, 0int,
{
    match shape {
        Shape::Text(_) => f is Scalar && f->Scalar_value is Text,
        Shape::Flag => f is Scalar && f->Scalar_value is Flag,
        Shape::Number(_) => f is Scalar && f->Scalar_value is Number,
        Shape::Composite(slots) => {
            &&& f is Composite
            &&& distinct_tags(slots@)
            &&& f->Composite_0@.len() == slots@.len()
            &&& forall|i: int|
                0 <= i < slots@.len() ==> (#[trigger] f->Composite_0@[i]).tag@ == slots@[i].tag@
                    && child_conforms(f->Composite_0@[i].field, slots@[i])
        },
        Shape::Choice(alternatives) => {
            &&& f is Choice
            &&& distinct_tags(alternatives@)
            &&& exists|k: int|
                0 <= k < alternatives@.len() && (#[trigger] alternatives@[k]).tag@
                    == f->Choice_0.tag@ && entry_conforms(f->Choice_0.field, alternatives@[k].shape)
        },
    }
}

/// Whether a field fits a declared child: one entry when required, an
/// optional entry when optional, and a sequence of entries when repeated.
pub open spec fn child_conforms(f: Field, slot: Slot) -> bool
    decreases slot, 0int,
{
    match slot.presence {
        Presence::Required => entry_conforms(f, slot.shape),
        Presence::Optional => f is Optional && match f->Optional_0 {
            Some(g) => entry_conforms(*g, slot.shape),
            None => true,
        },
        Presence::Repeated { min } => f is Repeated && f->Repeated_min == min && forall|i: int|
            0 <= i < f->Repeated_items@.len() ==> entry_conforms(
                #[trigger] f->Repeated_items@[i],
                slot.shape,
            ),
    }
}

/// A field's entries, where there are any, start with its tag.
proof fn lemma_first_tag(tag: Seq<char>, f: Field)
    ensures
        member_events(tag, f).len() > 0 ==> event_tag(member_events(tag, f)[0]) == Some(tag),
    decreases f, 0int,
{
    match f {
        Field::Optional(inner) => {
            if let Some(g) = inner {
                lemma_first_tag(tag, *g);
            }
        },
        Field::Repeated { min, items } => {
            lemma_items_first_tag(tag, items@, items@.len() as int);
        },
        _ => {},
    }
}

proof fn lemma_items_first_tag(tag: Seq<char>, items: Seq<Field>, n: int)
    ensures
        items_events(tag, items, n).len() > 0 ==> event_tag(items_events(tag, items, n)[0]) == Some(
            tag,
        ),
    decreases items, n,
{
    if 0 < n <= items.len() {
        lemma_items_first_tag(tag, items, n - 1);
        lemma_first_tag(tag, items[n - 1]);
    }
}

/// An entry is never empty.
proof fn lemma_entry_nonempty(tag: Seq<char>, f: Field, shape: Shape)
    requires
        entry_conforms(f, shape),
    ensures
        member_events(tag, f).len() > 0,
        event_tag(member_events(tag, f)[0]) == Some(tag),
{
    lemma_first_tag(tag, f);
}

/// The middle part of a sequence whose prefix is known.
proof fn lemma_middle(whole: Seq<Event>, before: Seq<Event>, one: Seq<Event>)
    requires
        whole.len() >= before.len() + one.len(),
        whole.subrange(0, (before.len() + one.len()) as int) == before + one,
    ensures
        whole.subrange(before.len() as int, (before.len() + one.len()) as int) == one,
{
    let b = before.len() as int;
    let e = (before.len() + one.len()) as int;
    assert forall|k: int| 0 <= k < one.len() implies #[trigger] whole.subrange(b, e)[k] == one[k] by {
        assert(whole.subrange(0, e)[b + k] == (before + one)[b + k]);
    }
    assert(whole.subrange(b, e) =~= one);
}

/// The entries of fewer items are a prefix of those of more.
proof fn lemma_items_events_grow(tag: Seq<char>, items: Seq<Field>, j: int, n: int)
    requires
        0 <= j <= n <= items.len(),
    ensures
        items_events(tag, items, j).len() <= items_events(tag, items, n).len(),
        items_events(tag, items, n).subrange(0, items_events(tag, items, j).len() as int)
            == items_events(tag, items, j),
    decreases n - j,
{
    if j < n {
        lemma_items_events_grow(tag, items, j, n - 1);
        let a = items_events(tag, items, n - 1);
        let b = items_events(tag, items, n);
        let c = items_events(tag, items, j);
        assert(b == a + member_events(tag, items[n - 1]));
        assert(b.subrange(0, c.len() as int) =~= a.subrange(0, c.len() as int));
    } else {
        let c = items_events(tag, items, j);
        assert(c.subrange(0, c.len() as int) =~= c);
    }
}

/// The entries of fewer members are a prefix of those of more.
proof fn lemma_members_events_grow(members: Seq<Member>, j: int, n: int)
    requires
        0 <= j <= n <= members.len(),
    ensures
        members_events(members, j).len() <= members_events(members, n).len(),
        members_events(members, n).subrange(0, members_events(members, j).len() as int)
            == members_events(members, j),
    decreases n - j,
{
    if j < n {
        lemma_members_events_grow(members, j, n - 1);
        let a = members_events(members, n - 1);
        let b = members_events(members, n);
        let c = members_events(members, j);
        assert(b.subrange(0, c.len() as int) =~= a.subrange(0, c.len() as int));
    } else {
        let c = members_events(members, j);
        assert(c.subrange(0, c.len() as int) =~= c);
    }
}

/// Within the entries of the first `n` members, what follows the entries of
/// the first `i + 1` starts a later member's entries, under that member's tag.
proof fn lemma_next_member_tag(members: Seq<Member>, i: int, n: int)
    requires
        0 <= i < n <= members.len(),
        members_events(members, i + 1).len() < members_events(members, n).len(),
    ensures
        exists|j: int|
            i < j < n && event_tag(
                members_events(members, n)[members_events(members, i + 1).len() as int],
            ) == Some(#[trigger] members[j].tag@),
    decreases n,
{
    let k = members_events(members, i + 1).len() as int;
    let a = members_events(members, n - 1);
    let m = member_events(members[n - 1].tag@, members[n - 1].field);
    assert(members_events(members, n) == a + m);
    lemma_members_events_grow(members, i + 1, n - 1);
    if k < a.len() {
        lemma_next_member_tag(members, i, n - 1);
        let j = choose|j: int| i < j < n - 1 && event_tag(a[k]) == Some(#[trigger] members[j].tag@);
        assert(members_events(members, n)[k] == a[k]);
        assert(i < j < n && event_tag(members_events(members, n)[k]) == Some(members[j].tag@));
    } else {
        lemma_first_tag(members[n - 1].tag@, members[n - 1].field);
        assert(members_events(members, n)[k] == m[0]);
        assert(i < n - 1 < n && event_tag(members_events(members, n)[k]) == Some(
            members[n - 1].tag@,
        ));
    }
}

/// A shape whose records and choices, at every depth, declare pairwise
/// distinct sibling tags.
pub open spec fn shape_wf(shape: Shape) -> bool
    decreases shape, 0int,
{
    match shape {
        Shape::Composite(slots) => distinct_tags(slots@) && forall|i: int|
            0 <= i < slots@.len() ==> slot_wf(#[trigger] slots@[i]),
        Shape::Choice(alternatives) => distinct_tags(alternatives@) && forall|i: int|
            0 <= i < alternatives@.len() ==> shape_wf(#[trigger] alternatives@[i].shape),
        _ => true,
    }
}

pub open spec fn slot_wf(slot: Slot) -> bool
    decreases slot, 1int,
{
    shape_wf(slot.shape)
}

/// In a well-formed shape, a field that fits also conforms.
proof fn lemma_entry_fits_conforms(f: Field, shape: Shape)
    requires
        entry_fits(f, shape),
        shape_wf(shape),
    ensures
        entry_conforms(f, shape),
    decreases shape, 0int,
{
    match shape {
        Shape::Composite(slots) => {
            let ms = f->Composite_0@;
            assert forall|i: int| 0 <= i < slots@.len() implies (#[trigger] ms[i]).tag@
                == slots@[i].tag@ && child_conforms(ms[i].field, slots@[i]) by {
                assert(slot_wf(slots@[i]));
                lemma_child_fits_conforms(ms[i].field, slots@[i]);
            }
        },
        Shape::Choice(alternatives) => {
            let m = f->Choice_0;
            let k = choose|k: int|
                0 <= k < alternatives@.len() && (#[trigger] alternatives@[k]).tag@ == m.tag@
                    && entry_fits(m.field, alternatives@[k].shape);
            assert(shape_wf(alternatives@[k].shape));
            lemma_entry_fits_conforms(m.field, alternatives@[k].shape);
            assert(alternatives@[k].tag@ == m.tag@ && entry_conforms(
                m.field,
                alternatives@[k].shape,
            ));
        },
        _ => {},
    }
}

proof fn lemma_child_fits_conforms(f: Field, slot: Slot)
    requires
        child_fits(f, slot),
        slot_wf(slot),
    ensures
        child_conforms(f, slot),
    decreases slot, 0int,
{
    match slot.presence {
        Presence::Required => lemma_entry_fits_conforms(f, slot.shape),
        Presence::Optional => {
            if let Some(g) = f->Optional_0 {
                lemma_entry_fits_conforms(*g, slot.shape);
            }
        },
        Presence::Repeated { min } => {
            let items = f->Repeated_items@;
            assert forall|i: int| 0 <= i < items.len() implies entry_conforms(
                #[trigger] items[i],
                slot.shape,
            ) by {
                lemma_entry_fits_conforms(items[i], slot.shape);
            }
        },
    }
}

/// Whether sibling slots carry pairwise distinct tags.
fn has_distinct_tags(slots: &Vec<Slot>) -> (r: bool)
    ensures
        r == distinct_tags(slots@),
{
    let n = slots.len();
    let mut i: usize = 0;
    while i < n
        invariant
            n == slots@.len(),
            i <= n,
            forall|a: int, b: int| 0 <= a < i && a < b < n ==> slots@[a].tag@ != slots@[b].tag@,
        decreases n - i,
    {
        let mut j: usize = i + 1;
        while j < n
            invariant
                n == slots@.len(),
                i < n,
                i + 1 <= j <= n,
                forall|b: int| i < b < j ==> slots@[i as int].tag@ != slots@[b].tag@,
            decreases n - j,
        {
            if slots[i].tag == slots[j].tag {
                return false;
            }
            j += 1;
        }
        i += 1;
    }
    true
}

impl Shape {
    /// Whether every record and choice in this shape declares pairwise
    /// distinct sibling tags.
    pub fn is_well_formed(&self) -> (r: bool)
        ensures
            r == shape_wf(*self),
        decreases self,
    {
        match self {
            Shape::Composite(slots) => {
                if !has_distinct_tags(slots) {
                    return false;
                }
                let mut i: usize = 0;
                while i < slots.len()
                    invariant
                        self is Composite,
                        self->Composite_0 == *slots,
                        distinct_tags(slots@),
                        i <= slots@.len(),
                        forall|j: int| 0 <= j < i ==> slot_wf(#[trigger] slots@[j]),
                    decreases slots@.len() - i,
                {
                    proof {
                        axiom_vec_index_decreases(*slots, i as int);
                    }
                    if !slots[i].shape.is_well_formed() {
                        assert(!slot_wf(slots@[i as int]));
                        return false;
                    }
                    i += 1;
                }
                true
            },
            Shape::Choice(alternatives) => {
                if !has_distinct_tags(alternatives) {
                    return false;
                }
                let mut i: usize = 0;
                while i < alternatives.len()
                    invariant
                        self is Choice,
                        self->Choice_0 == *alternatives,
                        distinct_tags(alternatives@),
                        i <= alternatives@.len(),
                        forall|j: int| 0 <= j < i ==> shape_wf(#[trigger] alternatives@[j].shape),
                    decreases alternatives@.len() - i,
                {
                    proof {
                        axiom_vec_index_decreases(*alternatives, i as int);
                    }
                    if !alternatives[i].shape.is_well_formed() {
                        return false;
                    }
                    i += 1;
                }
                true
            },
            _ => true,
        }
    }
}

impl Slot {
    /// Whether the shape of this slot is well formed.
    pub fn is_well_formed(&self) -> (r: bool)
        ensures
            r == slot_wf(*self),
    {
        self.shape.is_well_formed()
    }
}

impl Slot {
    /// Whether this slot, or anything below it, is declared under `tag`.
    pub fn declares_tag(&self, tag: &String) -> (r: bool)
        ensures
            r == declares(*self, tag@),
        decreases self,
    {
        self.tag == *tag || self.shape.declares_tag(tag)
    }
}

impl Shape {
    /// Whether this shape declares a child or alternative, at any depth,
    /// under `tag`.
    pub fn declares_tag(&self, tag: &String) -> (r: bool)
        ensures
            r == shape_declares(*self, tag@),
        decreases self,
    {
        let slots = match self {
            Shape::Composite(slots) => slots,
            Shape::Choice(slots) => slots,
            _ => {
                return false;
            },
        };
        let mut i: usize = 0;
        while i < slots.len()
            invariant
                self is Composite || self is Choice,
                self is Composite ==> self->Composite_0 == *slots,
                self is Choice ==> self->Choice_0 == *slots,
                i <= slots@.len(),
                forall|j: int| 0 <= j < i ==> !declares(#[trigger] slots@[j], tag@),
            decreases slots@.len() - i,
        {
            proof {
                axiom_vec_index_decreases(*slots, i as int);
            }
            if slots[i].declares_tag(tag) {
                return true;
            }
            i += 1;
        }
        false
    }
}

/// Whether some token carries a tag that `root` declares nowhere.
fn has_undeclared_tag(root: &Slot, tokens: &Vec<Token>) -> (r: bool)
    ensures
        r == has_unknown_tag(*root, events(tokens@)),
{
    let ghost ev = events(tokens@);
    let mut i: usize = 0;
    while i < tokens.len()
        invariant
            i <= tokens@.len(),
            ev == events(tokens@),
            forall|j: int| 0 <= j < i ==> match event_tag(#[trigger] ev[j]) {
                Some(t) => declares(*root, t),
                None => true,
            },
        decreases tokens@.len() - i,
    {
        let tag = match &tokens[i] {
            Token::Open(t) => t,
            Token::Close => {
                i += 1;
                continue;
            },
            Token::Text(t, _) => t,
            Token::Flag(t, _) => t,
            Token::Number(t, _) => t,
        };
        assert(ev[i as int] == tokens@[i as int].event());
        if !root.declares_tag(tag) {
            return true;
        }
        i += 1;
    }
    false
}

} // verus!
