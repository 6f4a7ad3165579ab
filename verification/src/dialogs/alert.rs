//! A question or a report: a heading, a text and a few answers.

use crate::i18n::{self, Message, MessageView};
use crate::sorting::{self, entry_order, entry_views, EntryView};
use crate::text::{self, decimal_of};
use vstd::prelude::*;

verus! {

/// A piece of a text: a message to translate, or text that is shown as it is.
pub enum Part {
    Message(Message),
    Literal(String),
}

/// What a [`Part`] says.
pub enum PartView {
    Message(MessageView),
    Literal(Seq<char>),
}

impl View for Part {
    type V = PartView;

    open spec fn view(&self) -> PartView {
        match self {
            Part::Message(m) => PartView::Message(m@),
            Part::Literal(s) => PartView::Literal(s@),
        }
    }
}

/// The views of a list of parts.
pub open spec fn part_views(v: Seq<Part>) -> Seq<PartView> {
    Seq::new(v.len(), |i: int| v[i]@)
}

/// A text made of parts, shown one behind the other.
pub struct Body {
    pub parts: Vec<Part>,
}

impl View for Body {
    type V = Seq<PartView>;

    open spec fn view(&self) -> Seq<PartView> {
        part_views(self.parts@)
    }
}

/// A message as a part.
pub open spec fn say(m: MessageView) -> PartView {
    PartView::Message(m)
}

/// Text as a part.
pub open spec fn lit(s: Seq<char>) -> PartView {
    PartView::Literal(s)
}

impl Body {
    /// A text without any part.
    pub fn new() -> (r: Self)
        ensures
            r@ == Seq::<PartView>::empty(),
    {
        let r = Body { parts: Vec::new() };
        assert(r@ =~= Seq::<PartView>::empty());
        r
    }

    /// A text that is one message.
    pub fn of(message: Message) -> (r: Self)
        ensures
            r@ == seq![say(message@)],
    {
        let mut r = Body::new();
        r.push_message(message);
        assert(r@ =~= seq![say(message@)]);
        r
    }

    /// Appends a message.
    pub fn push_message(&mut self, message: Message)
        ensures
            final(self)@ == old(self)@.push(say(message@)),
    {
        let ghost before = self@;
        self.parts.push(Part::Message(message));
        assert(self@ =~= before.push(say(message@)));
    }

    /// Appends text.
    pub fn push_text(&mut self, s: &str)
        ensures
            final(self)@ == old(self)@.push(lit(s@)),
    {
        let ghost before = self@;
        self.parts.push(Part::Literal(s.to_owned()));
        assert(self@ =~= before.push(lit(s@)));
    }

    /// Whether gettext takes every message.
    pub open spec fn renderable(&self) -> bool {
        forall|i: int|
            0 <= i < self.parts@.len() ==> ((#[trigger] self.parts@[i]) matches Part::Message(m)
                ==> m.renderable())
    }

    /// The text in the current locale: literal parts stand in it as they are, in their order.
    pub fn render(&self) -> (r: String)
        requires
            self.renderable(),
        ensures
            exists|pieces: Seq<Seq<char>>| #[trigger] is_rendering(self@, pieces, r@),
    {
        let mut r = String::new();
        let ghost mut pieces: Seq<Seq<char>> = Seq::empty();
        let mut i: usize = 0;
        assert(pieces.flatten() =~= Seq::<char>::empty());
        while i < self.parts.len()
            invariant
                i <= self.parts@.len(),
                self.renderable(),
                pieces.len() == i,
                r@ == pieces.flatten(),
                forall|j: int| 0 <= j < i ==> is_piece(self@[j], #[trigger] pieces[j]),
            decreases self.parts@.len() - i,
        {
            let piece = match &self.parts[i] {
                Part::Message(m) => m.render(),
                Part::Literal(s) => s.clone(),
            };
            r.append(piece.as_str());
            proof {
                pieces.lemma_flatten_push(piece@);
                pieces = pieces.push(piece@);
            }
            i += 1;
        }
        assert(is_rendering(self@, pieces, r@));
        r
    }
}

/// Whether a text can be what a part renders to.
pub open spec fn is_piece(part: PartView, piece: Seq<char>) -> bool {
    match part {
        PartView::Literal(s) => piece == s,
        PartView::Message(m) => i18n::is_said(piece, m),
    }
}

/// Whether `whole` is made of one piece for every part, in order.
pub open spec fn is_rendering(parts: Seq<PartView>, pieces: Seq<Seq<char>>, whole: Seq<char>) -> bool {
    &&& pieces.len() == parts.len()
    &&& whole == pieces.flatten()
    &&& forall|j: int| 0 <= j < parts.len() ==> is_piece(parts[j], #[trigger] pieces[j])
}

/// How many entries are named before a text switches to a summary: a dialog does not scroll.
pub const MAX_NAMED_FAILURES: usize = 12;

/// The labels of entries, without their notes.
pub open spec fn labels_only(entries: Seq<EntryView>) -> Seq<EntryView> {
    Seq::new(entries.len(), |i: int| (entries[i].0, Seq::empty()))
}

/// The first entries, up to the number that is named.
pub open spec fn first_named(entries: Seq<EntryView>) -> Seq<EntryView> {
    if entries.len() <= MAX_NAMED_FAILURES {
        entries
    } else {
        entries.take(MAX_NAMED_FAILURES as int)
    }
}

/// A bullet for each entry, with its note behind a dash where `notes` asks for it.
pub open spec fn bullets(entries: Seq<EntryView>, notes: bool) -> Seq<PartView>
    decreases entries.len(),
{
    if entries.len() == 0 {
        Seq::empty()
    } else {
        bullets(entries.drop_last(), notes) + (if notes {
            seq![
                lit("\n• "@),
                lit(entries.last().0),
                lit(" — "@),
                lit(entries.last().1),
            ]
        } else {
            seq![lit("\n• "@), lit(entries.last().0)]
        })
    }
}

/// The line that says how many more entries there are.
pub open spec fn and_more(total: nat) -> Seq<PartView> {
    if total > MAX_NAMED_FAILURES {
        seq![
            lit("\n\n"@),
            say(
                i18n::with_args(
                    "…and {} more. The full list is in the application log."@,
                    seq![decimal_of((total - MAX_NAMED_FAILURES) as nat)],
                ),
            ),
        ]
    } else {
        Seq::empty()
    }
}

/// Copies the first entries, up to the number that is named, with or without their notes.
fn named(entries: &Vec<(String, String)>, notes: bool) -> (r: Vec<(String, String)>)
    ensures
        entry_views(r@) == (if notes {
            first_named(entry_views(entries@))
        } else {
            labels_only(first_named(entry_views(entries@)))
        }),
{
    let mut r: Vec<(String, String)> = Vec::new();
    let mut i: usize = 0;
    while i < entries.len() && i < MAX_NAMED_FAILURES
        invariant
            i <= entries@.len(),
            i <= MAX_NAMED_FAILURES,
            r@.len() == i,
            forall|j: int|
                0 <= j < i ==> (#[trigger] r@[j]).0@ == entries@[j].0@ && r@[j].1@ == (if notes {
                    entries@[j].1@
                } else {
                    Seq::empty()
                }),
        decreases entries@.len() - i,
    {
        r.push(
            (
                entries[i].0.clone(),
                if notes {
                    entries[i].1.clone()
                } else {
                    String::new()
                },
            ),
        );
        i += 1;
    }
    assert(entry_views(r@) =~= if notes {
        first_named(entry_views(entries@))
    } else {
        labels_only(first_named(entry_views(entries@)))
    });
    r
}

/// Appends the first entries as a list in alphabetical order.
pub fn push_named(body: &mut Body, entries: &Vec<(String, String)>, notes: bool)
    ensures
        final(body)@ == old(body)@ + bullets(named_in_order(entry_views(entries@), notes), notes),
{
    let chosen = named(entries, notes);
    let sorted = sorting::sort_entries(&chosen);
    let ghost all = entry_views(sorted@);
    let ghost before = body@;
    let mut i: usize = 0;
    assert(before + bullets(all.take(0), notes) =~= before);
    while i < sorted.len()
        invariant
            i <= sorted@.len(),
            all == entry_views(sorted@),
            body@ == before + bullets(all.take(i as int), notes),
        decreases sorted@.len() - i,
    {
        body.push_text("\n• ");
        body.push_text(&sorted[i].0);
        if notes {
            body.push_text(" — ");
            body.push_text(&sorted[i].1);
        }
        assert(all.take(i + 1).drop_last() =~= all.take(i as int));
        assert(all.take(i + 1).last() == all[i as int]);
        assert(body@ =~= before + bullets(all.take(i + 1), notes));
        i += 1;
    }
    assert(all.take(i as int) =~= all);
}

/// The entries that are named, in alphabetical order.
pub open spec fn named_in_order(entries: Seq<EntryView>, notes: bool) -> Seq<EntryView> {
    (if notes {
        first_named(entries)
    } else {
        labels_only(first_named(entries))
    }).sort_by(entry_order())
}

/// Appends the line that says how many more entries there are.
pub fn push_and_more(body: &mut Body, total: usize)
    ensures
        final(body)@ == old(body)@ + and_more(total as nat),
{
    let ghost before = body@;
    if total > MAX_NAMED_FAILURES {
        body.push_text("\n\n");
        body.push_message(
            Message::with(
                "…and {} more. The full list is in the application log.",
                text::decimal((total - MAX_NAMED_FAILURES) as u64).as_str(),
            ),
        );
    }
    assert(body@ =~= before + and_more(total as nat));
}

/// An answer that a dialog offers.
pub struct DialogResponse {
    pub id: &'static str,
    pub label: &'static str,
}

/// A question or a report.
pub struct AlertDialog {
    pub heading: Message,
    pub body: Body,
    pub responses: Vec<DialogResponse>,
    /// The answer that the Return key gives.
    pub default_response: &'static str,
    /// The answer that closing the dialog gives.
    pub close_response: &'static str,
    /// The answer that is highlighted.
    pub suggested: Option<&'static str>,
    /// Whether an answer closes the dialog by itself.
    pub can_close: bool,
}

/// What an [`AlertDialog`] shows.
pub struct AlertView {
    pub heading: MessageView,
    pub body: Seq<PartView>,
    pub responses: Seq<(Seq<char>, Seq<char>)>,
    pub default_response: Seq<char>,
    pub close_response: Seq<char>,
    pub suggested: Option<Seq<char>>,
    pub can_close: bool,
}

/// The views of the answers.
pub open spec fn response_views(v: Seq<DialogResponse>) -> Seq<(Seq<char>, Seq<char>)> {
    Seq::new(v.len(), |i: int| (v[i].id@, v[i].label@))
}

impl View for AlertDialog {
    type V = AlertView;

    open spec fn view(&self) -> AlertView {
        AlertView {
            heading: self.heading@,
            body: self.body@,
            responses: response_views(self.responses@),
            default_response: self.default_response@,
            close_response: self.close_response@,
            suggested: text::opt_str_view(self.suggested),
            can_close: self.can_close,
        }
    }
}

/// A question with two answers, the first of which Return and closing give.
pub open spec fn question(
    heading: MessageView,
    body: Seq<PartView>,
    safe: (Seq<char>, Seq<char>),
    other: (Seq<char>, Seq<char>),
    can_close: bool,
) -> AlertView {
    AlertView {
        heading,
        body,
        responses: seq![safe, other],
        default_response: safe.0,
        close_response: safe.0,
        suggested: Some(other.0),
        can_close,
    }
}

/// A report with nothing but a Close button.
pub open spec fn report(heading: MessageView, body: Seq<PartView>) -> AlertView {
    AlertView {
        heading,
        body,
        responses: seq![("close"@, "Close"@)],
        default_response: "close"@,
        close_response: "close"@,
        suggested: None,
        can_close: true,
    }
}

impl AlertDialog {
    /// A question with two answers; Return and closing give the first, the other is highlighted.
    pub fn question(
        heading: Message,
        body: Body,
        safe: (&'static str, &'static str),
        other: (&'static str, &'static str),
        can_close: bool,
    ) -> (r: Self)
        ensures
            r@ == question(heading@, body@, (safe.0@, safe.1@), (other.0@, other.1@), can_close),
    {
        let mut responses: Vec<DialogResponse> = Vec::new();
        responses.push(DialogResponse { id: safe.0, label: safe.1 });
        responses.push(DialogResponse { id: other.0, label: other.1 });
        assert(response_views(responses@) =~= seq![(safe.0@, safe.1@), (other.0@, other.1@)]);
        AlertDialog {
            heading,
            body,
            responses,
            default_response: safe.0,
            close_response: safe.0,
            suggested: Some(other.0),
            can_close,
        }
    }

    /// A report with nothing but a Close button.
    pub fn report(heading: Message, body: Body) -> (r: Self)
        ensures
            r@ == report(heading@, body@),
    {
        let mut responses: Vec<DialogResponse> = Vec::new();
        responses.push(DialogResponse { id: "close", label: "Close" });
        assert(response_views(responses@) =~= seq![("close"@, "Close"@)]);
        AlertDialog {
            heading,
            body,
            responses,
            default_response: "close",
            close_response: "close",
            suggested: None,
            can_close: true,
        }
    }
}

/// Whether a part is a message with this text and these arguments.
pub open spec fn says(part: PartView, msgid: Seq<char>, args: Seq<Seq<char>>) -> bool {
    part matches PartView::Message(m) && m.msgid == msgid && m.args == args
}

/// Whether a part is this text, shown as it is.
pub open spec fn shows(part: PartView, s: Seq<char>) -> bool {
    part matches PartView::Literal(t) && t == s
}

/// Return and closing give the safe answer of a question, and only the other one is highlighted.
pub proof fn law_safe_answer_is_the_default(
    heading: Message,
    body: Body,
    safe: (&'static str, &'static str),
    other: (&'static str, &'static str),
    can_close: bool,
    r: AlertDialog,
)
    requires
        call_ensures(AlertDialog::question, (heading, body, safe, other, can_close), r),
    ensures
        r.default_response@ == safe.0@,
        r.close_response@ == safe.0@,
        r.suggested matches Some(s) && s@ == other.0@,
        r.responses@.len() == 2,
        r.responses@[0].id@ == safe.0@ && r.responses@[0].label@ == safe.1@,
        r.responses@[1].id@ == other.0@ && r.responses@[1].label@ == other.1@,
        r.heading@ == heading@,
        r.body@ == body@,
        r.can_close == can_close,
{
    assert(response_views(r.responses@).len() == r.responses@.len());
    assert(response_views(r.responses@)[0] == (safe.0@, safe.1@));
    assert(response_views(r.responses@)[1] == (other.0@, other.1@));
    assert(r@.suggested == Some(other.0@));
}

/// A report can only be closed.
pub proof fn law_report_can_only_be_closed(heading: Message, body: Body, r: AlertDialog)
    requires
        call_ensures(AlertDialog::report, (heading, body), r),
    ensures
        r.responses@.len() == 1,
        r.responses@[0].id@ == "close"@ && r.responses@[0].label@ == "Close"@,
        r.default_response@ == "close"@,
        r.close_response@ == "close"@,
        r.suggested is None,
        r.can_close,
        r.heading@ == heading@,
        r.body@ == body@,
{
    assert(response_views(r.responses@).len() == r.responses@.len());
    assert(response_views(r.responses@)[0] == ("close"@, "Close"@));
    assert(r@.suggested is None);
}

/// A new text says nothing, and one that is made of a message says nothing else.
pub proof fn law_text_says_what_it_was_made_of(empty: Body, message: Message, r: Body)
    requires
        call_ensures(Body::new, (), empty),
        call_ensures(Body::of, (message,), r),
    ensures
        empty.parts@.len() == 0,
        r.parts@.len() == 1,
        r.parts@[0] matches Part::Message(m) && m@ == message@,
{
    assert(empty@.len() == empty.parts@.len());
    assert(r@.len() == r.parts@.len());
    assert(r@[0] == r.parts@[0]@);
}

/// A text that translates nothing is rendered as its parts, one behind the other.
pub proof fn law_text_as_it_is_is_not_translated(body: &Body, r: String)
    requires
        body.renderable(),
        call_ensures(Body::render, (body,), r),
        forall|i: int| 0 <= i < body.parts@.len() ==> (#[trigger] body.parts@[i]) is Literal,
    ensures
        r@ == Seq::new(body.parts@.len(), |i: int| body.parts@[i]->Literal_0@).flatten(),
{
    let pieces = choose|pieces: Seq<Seq<char>>| #[trigger] is_rendering(body@, pieces, r@);
    assert(is_rendering(body@, pieces, r@));
    let texts = Seq::new(body.parts@.len(), |i: int| body.parts@[i]->Literal_0@);
    assert(body@.len() == body.parts@.len());
    assert forall|i: int| 0 <= i < texts.len() implies pieces[i] == texts[i] by {
        assert(body@[i] == body.parts@[i]@);
        assert(body.parts@[i] is Literal);
        assert(is_piece(body@[i], pieces[i]));
    }
    assert(pieces =~= texts);
}

/// A message between two texts is rendered between them, as what it says in the locale.
pub proof fn law_message_stands_in_its_place(body: &Body, r: String)
    requires
        body.renderable(),
        call_ensures(Body::render, (body,), r),
        body.parts@.len() == 3,
        body.parts@[0] is Literal,
        body.parts@[1] is Message,
        body.parts@[2] is Literal,
    ensures
        exists|said: Seq<char>|
            #![trigger i18n::is_said(said, body.parts@[1]->Message_0@)]
            i18n::is_said(said, body.parts@[1]->Message_0@) && r@ == body.parts@[0]->Literal_0@
                + said + body.parts@[2]->Literal_0@,
{
    let pieces = choose|pieces: Seq<Seq<char>>| #[trigger] is_rendering(body@, pieces, r@);
    assert(is_rendering(body@, pieces, r@));
    assert(body@.len() == body.parts@.len());
    assert(body@[0] == body.parts@[0]@);
    assert(body@[1] == body.parts@[1]@);
    assert(body@[2] == body.parts@[2]@);
    assert(is_piece(body@[0], pieces[0]));
    assert(is_piece(body@[1], pieces[1]));
    assert(is_piece(body@[2], pieces[2]));
    assert(i18n::is_said(pieces[1], body.parts@[1]->Message_0@));
    reveal_with_fuel(Seq::flatten, 4);
    assert(pieces.drop_first().drop_first().drop_first() =~= Seq::empty());
    assert(pieces.drop_first()[0] == pieces[1]);
    assert(pieces.drop_first().drop_first()[0] == pieces[2]);
    assert(r@ =~= pieces[0] + pieces[1] + pieces[2]);
}

/// Every entry has a bullet of its own, in the order of the entries; its note stands behind a dash
/// where notes are asked for, and nowhere otherwise.
pub proof fn law_every_entry_has_its_bullet(entries: Seq<EntryView>, i: int)
    requires
        0 <= i < entries.len(),
    ensures
        bullets(entries, false).len() == 2 * entries.len(),
        shows(bullets(entries, false)[2 * i], "\n• "@),
        shows(bullets(entries, false)[2 * i + 1], entries[i].0),
        bullets(entries, true).len() == 4 * entries.len(),
        shows(bullets(entries, true)[4 * i], "\n• "@),
        shows(bullets(entries, true)[4 * i + 1], entries[i].0),
        shows(bullets(entries, true)[4 * i + 2], " — "@),
        shows(bullets(entries, true)[4 * i + 3], entries[i].1),
    decreases entries.len(),
{
    let before = entries.drop_last();
    lemma_bullets_len(before);
    if i < before.len() {
        law_every_entry_has_its_bullet(before, i);
        assert(before[i] == entries[i]);
    }
}

/// The number of parts of a list of bullets.
pub proof fn lemma_bullets_len(entries: Seq<EntryView>)
    ensures
        bullets(entries, false).len() == 2 * entries.len(),
        bullets(entries, true).len() == 4 * entries.len(),
    decreases entries.len(),
{
    if entries.len() > 0 {
        lemma_bullets_len(entries.drop_last());
    }
}

/// Whether one of the first `n` entries has this label.
pub open spec fn labels_one_of_first(entries: Seq<EntryView>, n: int, label: Seq<char>) -> bool {
    exists|i: int| 0 <= i < n && i < entries.len() && (#[trigger] entries[i]).0 == label
}

/// Of the entries, the first twelve are named and no other; each keeps its label, and its note
/// where notes are asked for.
pub proof fn law_first_twelve_are_named(entries: Seq<EntryView>, notes: bool)
    ensures
        named_in_order(entries, notes).len() == (if entries.len() <= 12 {
            entries.len() as int
        } else {
            12
        }),
        forall|i: int|
            0 <= i < entries.len() && i < 12 ==> named_in_order(entries, notes).contains(
                (
                    (#[trigger] entries[i]).0,
                    if notes {
                        entries[i].1
                    } else {
                        ""@
                    },
                ),
            ),
        forall|k: int|
            0 <= k < named_in_order(entries, notes).len() ==> labels_one_of_first(
                entries,
                12,
                (#[trigger] named_in_order(entries, notes)[k]).0,
            ),
        forall|j: int, k: int|
            0 <= j < k < named_in_order(entries, notes).len() ==> sorting::text_leq(
                (#[trigger] named_in_order(entries, notes)[j]).0,
                (#[trigger] named_in_order(entries, notes)[k]).0,
            ),
{
    reveal_strlit("");
    assert(""@ =~= Seq::<char>::empty());
    let first = first_named(entries);
    let chosen = if notes {
        first
    } else {
        labels_only(first)
    };
    let sorted = named_in_order(entries, notes);
    sorting::law_entries_are_totally_ordered();
    chosen.lemma_sort_by_ensures(entry_order());
    broadcast use vstd::seq_lib::group_to_multiset_ensures;

    assert(sorted.len() == sorted.to_multiset().len());
    assert(chosen.len() == chosen.to_multiset().len());
    assert forall|i: int| 0 <= i < entries.len() && i < 12 implies sorted.contains(
        (
            (#[trigger] entries[i]).0,
            if notes {
                entries[i].1
            } else {
                ""@
            },
        ),
    ) by {
        assert(first[i] == entries[i]);
        let e = chosen[i];
        assert(chosen.contains(e));
        assert(chosen.to_multiset().count(e) > 0);
        assert(sorted.to_multiset().count(e) > 0);
        assert(sorted.contains(e));
    }
    assert forall|k: int| 0 <= k < sorted.len() implies labels_one_of_first(
        entries,
        12,
        (#[trigger] sorted[k]).0,
    ) by {
        let e = sorted[k];
        assert(sorted.contains(e));
        assert(sorted.to_multiset().count(e) > 0);
        assert(chosen.to_multiset().count(e) > 0);
        assert(chosen.contains(e));
        let i = choose|i: int| 0 <= i < chosen.len() && chosen[i] == e;
        assert(first[i] == entries[i]);
    }
    assert forall|j: int, k: int| 0 <= j < k < sorted.len() implies sorting::text_leq(
        (#[trigger] sorted[j]).0,
        (#[trigger] sorted[k]).0,
    ) by {
        let order = entry_order();
        assert(order(sorted[j], sorted[k]));
        assert(sorting::entry_leq(sorted[j], sorted[k]));
        if sorted[j].0 == sorted[k].0 {
            sorting::lemma_text_reflexive(sorted[j].0);
        }
    }
}

/// A line says how many entries are not named, exactly where there are such entries.
pub proof fn law_rest_is_counted(total: nat)
    ensures
        total <= 12 ==> and_more(total).len() == 0,
        total > 12 ==> {
            &&& and_more(total).len() == 2
            &&& shows(and_more(total)[0], "\n\n"@)
            &&& and_more(total)[1] matches PartView::Message(m)
            &&& m.msgid == "…and {} more. The full list is in the application log."@
            &&& m.args.len() == 1
            &&& text::value_of(m.args[0]) == total - 12
        },
{
    if total > 12 {
        text::lemma_decimal((total - 12) as nat);
    }
}

} // verus!
