//! The state of the key inspector: the last label and the history of labels,
//! and the texts its view shows.
use crate::input::{
    chord_label, key_label, key_name, lemma_chord_label_nonempty, lemma_key_name_nonempty,
    lemma_mouse_name_nonempty, is_blank_key, modifier_names, mouse_label, mouse_name, InputEvent, ModifierKeys, MouseAction,
};
use crate::text::{
    decimal, decimal_text, join_strings, joined, lemma_decimal_injective, pad_left, spaces, texts,
};
use vstd::prelude::*;
use vstd::string::*;

verus! {

/// How many of the latest labels the history line shows.
pub const HISTORY_SHOWN: usize = 20;

/// How many of the latest labels the history keeps.
pub const HISTORY_KEPT: usize = 20;

/// The prefix naming the component an event was routed to, if any.
pub open spec fn component_prefix(id: Option<u64>) -> Seq<char> {
    match id {
        Some(c) => "c"@ + decimal(c as nat) + ":"@,
        None => Seq::empty(),
    }
}

/// The label recorded for an event routed to `id`; none for an event that is
/// neither a key nor a mouse event.
pub open spec fn event_label(id: Option<u64>, event: InputEvent) -> Option<Seq<char>> {
    match event {
        InputEvent::Key { code, modifiers } => Some(
            component_prefix(id) + chord_label(modifiers, key_name(code)),
        ),
        InputEvent::Mouse { kind, modifiers, column, row } => Some(
            component_prefix(id) + chord_label(modifiers, mouse_name(kind)) + " @("@ + decimal(
                column as nat,
            ) + ", "@ + decimal(row as nat) + ")"@,
        ),
        InputEvent::Other => None,
    }
}

/// The latest `n` labels of `keys`, newest first.
pub open spec fn latest(keys: Seq<Seq<char>>, n: nat) -> Seq<Seq<char>> {
    if keys.len() <= n {
        keys.reverse()
    } else {
        keys.reverse().take(n as int)
    }
}

/// The width of the box that shows the last key, for a viewport `viewport_width` cells wide.
pub open spec fn spec_keybox_width(viewport_width: u16) -> int {
    let w = viewport_width - 4;
    let capped = if w < 62 {
        w
    } else {
        62
    };
    if capped > 20 {
        capped
    } else {
        20
    }
}

/// The number of spaces that centre a text of `len` bytes in `width` cells.
pub open spec fn centring_pad(width: u16, len: nat) -> nat {
    if len < width {
        ((width - len) / 2) as nat
    } else {
        0
    }
}

/// The prefix naming the component an event was routed to, if any.
fn prefix_text(id: Option<u64>) -> (r: String)
    ensures
        r@ == component_prefix(id),
{
    match id {
        Some(c) => {
            let mut text = String::from_str("c");
            let number = decimal_text(c);
            text.append(number.as_str());
            text.append(":");
            text
        },
        None => String::new(),
    }
}

/// The newest `n` of `labels` (all of them when there are at most `n`), oldest first.
pub open spec fn newest(labels: Seq<Seq<char>>, n: nat) -> Seq<Seq<char>> {
    if labels.len() <= n {
        labels
    } else {
        labels.skip(labels.len() - n)
    }
}

/// The labels recorded for a run of events, in order of arrival: one for
/// each key or mouse event, none for other events.
pub open spec fn labels_of(steps: Seq<(Option<u64>, InputEvent)>) -> Seq<Seq<char>>
    decreases steps.len(),
{
    if steps.len() == 0 {
        Seq::empty()
    } else {
        let earlier = labels_of(steps.drop_last());
        match event_label(steps.last().0, steps.last().1) {
            Some(label) => earlier.push(label),
            None => earlier,
        }
    }
}

/// Whether `event`, routed to `id`, is a key event routed to no component,
/// with no modifier held, of a key whose text is empty.
pub open spec fn is_blank_event(id: Option<u64>, event: InputEvent) -> bool {
    &&& id is None
    &&& event matches InputEvent::Key { code, modifiers } && is_blank_key(code)
        && modifier_names(modifiers).len() == 0
}

/// The label of an event is empty only for a key event routed to no
/// component, with no modifier held, of a key whose text is empty.
pub proof fn lemma_event_label_nonempty(id: Option<u64>, event: InputEvent)
    requires
        !is_blank_event(id, event),
    ensures
        event_label(id, event) matches Some(label) ==> label.len() > 0,
{
    match event {
        InputEvent::Key { code, modifiers } => {
            lemma_chord_label_nonempty(modifiers, key_name(code));
            lemma_key_name_nonempty(code);
            if id is Some {
                reveal_strlit("c");
            }
        },
        InputEvent::Mouse { kind, modifiers, column, row } => {
            lemma_chord_label_nonempty(modifiers, mouse_name(kind));
            lemma_mouse_name_nonempty(kind);
        },
        InputEvent::Other => {},
    }
}

/// The state of the key inspector.
pub struct KeyLog {
    /// The label of the latest key or mouse event.
    pub last_key: String,
    /// The labels of the latest key and mouse events, at most
    /// [`HISTORY_KEPT`] of them, newest last.
    pub history: Vec<String>,
}

/// `after` is `before` once the event `event`, routed to `id`, is recorded:
/// the event's label becomes the last key and is appended to the history, of
/// which the newest [`HISTORY_KEPT`] labels stay; an event without a label
/// changes nothing.
pub open spec fn records(before: KeyLog, id: Option<u64>, event: InputEvent, after: KeyLog) -> bool {
    match event_label(id, event) {
        Some(label) => {
            &&& after.last_key@ == label
            &&& texts(after.history@) == newest(texts(before.history@).push(label), 20)
        },
        None => after == before,
    }
}

impl KeyLog {
    /// The last key is the newest label of the history, and empty while the
    /// history is.
    pub open spec fn is_consistent(&self) -> bool {
        &&& self.history@.len() == 0 ==> self.last_key@.len() == 0
        &&& self.history@.len() > 0 ==> self.last_key@ == self.history@.last()@
    }

    /// A log with no event yet.
    pub fn new() -> (r: KeyLog)
        ensures
            r.last_key@ == Seq::<char>::empty(),
            r.history@ == Seq::<String>::empty(),
            r.is_consistent(),
    {
        KeyLog { last_key: String::new(), history: Vec::new() }
    }

    /// Records a key or mouse event routed to the component `id`: its label
    /// becomes the last key and is appended to the history, which then keeps
    /// its newest [`HISTORY_KEPT`] labels. Other events change nothing.
    /// Returns whether the log changed, so that the view is redrawn.
    pub fn handle_event(&mut self, id: Option<u64>, event: &InputEvent) -> (changed: bool)
        ensures
            changed == (event_label(id, *event) is Some),
            records(*old(self), id, *event, *final(self)),
            changed ==> final(self).history@.len() <= HISTORY_KEPT,
            old(self).is_consistent() ==> final(self).is_consistent(),
    {
        let label = match event {
            InputEvent::Key { code, modifiers } => {
                let mut text = prefix_text(id);
                let chord = key_label(code, *modifiers);
                text.append(chord.as_str());
                text
            },
            InputEvent::Mouse { kind, modifiers, column, row } => {
                let mut text = prefix_text(id);
                let chord = mouse_label(*kind, *modifiers);
                text.append(chord.as_str());
                text.append(" @(");
                let c = decimal_text(*column as u64);
                text.append(c.as_str());
                text.append(", ");
                let r = decimal_text(*row as u64);
                text.append(r.as_str());
                text.append(")");
                text
            },
            InputEvent::Other => {
                return false;
            },
        };
        self.last_key = label.clone();
        let ghost before = self.history@;
        self.history.push(label);
        let ghost full = texts(self.history@);
        let ghost label_text = self.last_key@;
        proof {
            assert(full =~= texts(before).push(self.last_key@));
            assert(full.skip(0) =~= full);
        }
        while self.history.len() > HISTORY_KEPT
            invariant
                self.history@.len() <= full.len(),
                self.history@.len() >= (if full.len() <= 20 {
                    full.len()
                } else {
                    20
                }),
                texts(self.history@) == full.skip(full.len() - self.history@.len()),
                self.last_key@ == label_text,
                full.len() > 0,
                full.last() == label_text,
            decreases self.history@.len(),
        {
            let ghost kept = self.history@;
            self.history.remove(0);
            proof {
                let k = full.len() - kept.len();
                assert forall|j: int| 0 <= j < self.history@.len() implies texts(self.history@)[j]
                    == full.skip(full.len() - self.history@.len())[j] by {
                    assert(self.history@[j] == kept[j + 1]);
                    assert(texts(kept)[j + 1] == full.skip(k)[j + 1]);
                }
                assert(texts(self.history@) =~= full.skip(full.len() - self.history@.len()));
            }
        }
        proof {
            if full.len() <= 20 {
                assert(texts(self.history@) =~= full);
            }
            let h = texts(self.history@);
            assert(h[h.len() - 1] == full[full.len() - 1]);
            assert(h[h.len() - 1] == self.history@.last()@);
        }
        true
    }

    /// The text of the box that shows the last key: the last label, or a
    /// prompt while there is none.
    pub fn display_label(&self) -> (r: String)
        ensures
            r@ == (if self.last_key@.len() == 0 {
                "(press any key)"@
            } else {
                self.last_key@
            }),
    {
        if self.last_key.as_str().is_empty() {
            String::from_str("(press any key)")
        } else {
            self.last_key.clone()
        }
    }

    /// The history line: ` History: ` and then the latest twenty labels,
    /// newest first, two spaces apart.
    pub fn history_line(&self) -> (r: String)
        ensures
            r@ == " History: "@ + joined(latest(texts(self.history@), 20), "  "@),
    {
        let n = self.history.len();
        let shown = if n < HISTORY_SHOWN {
            n
        } else {
            HISTORY_SHOWN
        };
        let mut recent: Vec<String> = Vec::new();
        let mut j: usize = 0;
        while j < shown
            invariant
                n == self.history@.len(),
                shown <= n,
                shown <= 20,
                j <= shown,
                texts(recent@) == texts(self.history@).reverse().take(j as int),
            decreases shown - j,
        {
            let ghost before = recent@;
            recent.push(self.history[n - 1 - j].clone());
            proof {
                let all = texts(self.history@);
                assert(texts(recent@) =~= texts(before).push(self.history@[n - 1 - j]@));
                assert(all.reverse().take(j + 1) =~= all.reverse().take(j as int).push(
                    all.reverse()[j as int],
                ));
            }
            j = j + 1;
        }
        proof {
            let all = texts(self.history@);
            if n <= 20 {
                assert(all.reverse().take(n as int) =~= all.reverse());
            }
        }
        let mut line = String::from_str(" History: ");
        let keys = join_strings(&recent, "  ");
        line.append(keys.as_str());
        line
    }
}

/// Keeping the newest `n` labels after each append keeps the newest `n` of all.
proof fn lemma_newest_after_push(labels: Seq<Seq<char>>, label: Seq<char>, n: nat)
    requires
        n > 0,
    ensures
        newest(newest(labels, n).push(label), n) == newest(labels.push(label), n),
{
    if labels.len() > n {
        assert(newest(newest(labels, n).push(label), n) =~= newest(labels.push(label), n));
    } else if labels.len() == n {
        assert(newest(newest(labels, n).push(label), n) =~= newest(labels.push(label), n));
    }
}

/// A run of events from an empty log: `logs[i + 1]` is `logs[i]` once
/// `steps[i]` is recorded, as [`KeyLog::handle_event`] ensures. At the end the
/// history holds the newest [`HISTORY_KEPT`] labels of the run in order of
/// arrival, newest last; the last key is the newest label, and the log is as
/// it started while no event had a label. When no event has an empty label,
/// the last key is empty exactly while no key or mouse event came.
pub proof fn lemma_run_of_events(logs: Seq<KeyLog>, steps: Seq<(Option<u64>, InputEvent)>)
    requires
        logs.len() == steps.len() + 1,
        logs[0].last_key@.len() == 0,
        logs[0].history@.len() == 0,
        forall|i: int|
            #![trigger steps[i]]
            0 <= i < steps.len() ==> records(logs[i], steps[i].0, steps[i].1, logs[i + 1]),
    ensures
        texts(logs.last().history@) == newest(labels_of(steps), 20),
        logs.last().history@.len() <= HISTORY_KEPT,
        logs.last().is_consistent(),
        labels_of(steps).len() > 0 ==> logs.last().last_key@ == labels_of(steps).last(),
        labels_of(steps).len() == 0 ==> logs.last() == logs[0],
        (forall|i: int| #![trigger steps[i]] 0 <= i < steps.len() ==> !is_blank_event(steps[i].0, steps[i].1))
            ==> (logs.last().last_key@.len() == 0 <==> labels_of(steps).len() == 0),
    decreases steps.len(),
{
    if steps.len() == 0 {
        assert(texts(logs[0].history@) =~= Seq::<Seq<char>>::empty());
    } else {
        let n = steps.len() - 1;
        let earlier_logs = logs.drop_last();
        let earlier_steps = steps.drop_last();
        assert forall|i: int|
            #![trigger earlier_steps[i]]
            0 <= i < earlier_steps.len() implies records(
                earlier_logs[i],
                earlier_steps[i].0,
                earlier_steps[i].1,
                earlier_logs[i + 1],
            ) by {
            assert(steps[i] == earlier_steps[i]);
        }
        lemma_run_of_events(earlier_logs, earlier_steps);
        let prev = logs[n];
        let last = logs[n + 1];
        let step = steps[n];
        assert(earlier_logs.last() == prev);
        assert(steps.last() == step);
        assert(earlier_steps =~= steps.drop_last());
        assert(records(prev, step.0, step.1, last));
        let earlier_labels = labels_of(earlier_steps);
        match event_label(step.0, step.1) {
            Some(label) => {
                assert(labels_of(steps) == earlier_labels.push(label));
                lemma_newest_after_push(earlier_labels, label, 20);
                let h = texts(last.history@);
                assert(h == newest(earlier_labels.push(label), 20));
                assert(h.len() > 0);
                assert(h.last() == label);
                assert(h[h.len() - 1] == last.history@.last()@);
                if forall|i: int| #![trigger steps[i]] 0 <= i < steps.len() ==> !is_blank_event(steps[i].0, steps[i].1) {
                    assert(!is_blank_event(steps[n].0, steps[n].1));
                    lemma_event_label_nonempty(step.0, step.1);
                }
            },
            None => {
                assert(labels_of(steps) == earlier_labels);
                assert(last == prev);
                if forall|i: int| #![trigger steps[i]] 0 <= i < steps.len() ==> !is_blank_event(steps[i].0, steps[i].1) {
                    assert forall|i: int|
                        #![trigger earlier_steps[i]]
                        0 <= i < earlier_steps.len() implies !is_blank_event(
                            earlier_steps[i].0,
                            earlier_steps[i].1,
                        ) by {
                        assert(steps[i] == earlier_steps[i]);
                    }
                }
            },
        }
    }
}

/// The key box is never narrower than 20 nor wider than 62 cells, and is
/// four cells narrower than the viewport whenever that width is in range.
pub proof fn lemma_keybox_width_range(viewport_width: u16)
    ensures
        20 <= spec_keybox_width(viewport_width) <= 62,
        20 <= viewport_width - 4 <= 62 ==> spec_keybox_width(viewport_width) == viewport_width - 4,
        viewport_width - 4 < 20 ==> spec_keybox_width(viewport_width) == 20,
        viewport_width - 4 > 62 ==> spec_keybox_width(viewport_width) == 62,
{
}

/// The padding centres the label: the padding on the left and the room left
/// on the right differ by at most one cell (the right one being the larger);
/// a label as wide as the line or wider gets no padding.
pub proof fn lemma_centring_pad_centres(width: u16, len: nat)
    ensures
        len < width ==> centring_pad(width, len) * 2 + len == width || centring_pad(width, len)
            * 2 + len + 1 == width,
        len >= width ==> centring_pad(width, len) == 0,
{
}

/// The history line shows the newest labels first: as many as there are, up
/// to `n`, each exactly as recorded.
pub proof fn lemma_latest_labels(keys: Seq<Seq<char>>, n: nat)
    ensures
        latest(keys, n).len() == (if keys.len() <= n {
            keys.len()
        } else {
            n
        }),
        forall|i: int|
            0 <= i < latest(keys, n).len() ==> #[trigger] latest(keys, n)[i] == keys[keys.len() - 1
                - i],
{
}

/// A mouse event's label ends with ` @(`, the decimal column, `, `, the
/// decimal row and `)`.
pub proof fn lemma_mouse_label_ends_with_position(
    id: Option<u64>,
    kind: MouseAction,
    modifiers: ModifierKeys,
    column: u16,
    row: u16,
)
    ensures
        event_label(id, InputEvent::Mouse { kind, modifiers, column, row }) matches Some(label) && {
            let tail = " @("@ + decimal(column as nat) + ", "@ + decimal(row as nat) + ")"@;
            &&& tail.len() <= label.len()
            &&& label.subrange(label.len() - tail.len(), label.len() as int) == tail
        },
{
    let label = event_label(id, InputEvent::Mouse { kind, modifiers, column, row })->0;
    let tail = " @("@ + decimal(column as nat) + ", "@ + decimal(row as nat) + ")"@;
    let head = component_prefix(id) + chord_label(modifiers, mouse_name(kind));
    assert(label =~= head + tail);
    assert(label.subrange(label.len() - tail.len(), label.len() as int) =~= tail);
}

/// Two mouse events that differ only in their row, or only in their column,
/// get different labels.
pub proof fn lemma_mouse_labels_tell_positions_apart(
    id: Option<u64>,
    kind: MouseAction,
    modifiers: ModifierKeys,
    column1: u16,
    row1: u16,
    column2: u16,
    row2: u16,
)
    requires
        column1 == column2 || row1 == row2,
        column1 != column2 || row1 != row2,
    ensures
        event_label(id, InputEvent::Mouse { kind, modifiers, column: column1, row: row1 })
            != event_label(id, InputEvent::Mouse { kind, modifiers, column: column2, row: row2 }),
{
    let l1 = event_label(id, InputEvent::Mouse { kind, modifiers, column: column1, row: row1 })->0;
    let l2 = event_label(id, InputEvent::Mouse { kind, modifiers, column: column2, row: row2 })->0;
    let head = component_prefix(id) + chord_label(modifiers, mouse_name(kind)) + " @("@;
    let c1 = decimal(column1 as nat);
    let c2 = decimal(column2 as nat);
    let r1 = decimal(row1 as nat);
    let r2 = decimal(row2 as nat);
    assert(l1 =~= head + c1 + ", "@ + r1 + ")"@);
    assert(l2 =~= head + c2 + ", "@ + r2 + ")"@);
    reveal_strlit(")");
    if l1 == l2 {
        if column1 == column2 {
            let front = head + c1 + ", "@;
            assert(l1.subrange(front.len() as int, l1.len() - 1) =~= r1);
            assert(l2.subrange(front.len() as int, l2.len() - 1) =~= r2);
            lemma_decimal_injective(row1 as nat, row2 as nat);
        } else {
            let back = ", "@ + r1 + ")"@;
            assert(l1.subrange(head.len() as int, l1.len() - back.len()) =~= c1);
            assert(l2.subrange(head.len() as int, l2.len() - back.len()) =~= c2);
            lemma_decimal_injective(column1 as nat, column2 as nat);
        }
    }
}

/// The history keeps the newest labels, in order: as many as there are, up to
/// `n`, the last of them being the newest label.
pub proof fn lemma_newest_keeps_the_latest(labels: Seq<Seq<char>>, n: nat)
    ensures
        newest(labels, n).len() == (if labels.len() <= n {
            labels.len()
        } else {
            n
        }),
        forall|i: int|
            0 <= i < newest(labels, n).len() ==> #[trigger] newest(labels, n)[i] == labels[labels.len()
                - newest(labels, n).len() + i],
{
}

/// Events routed to different components get different labels; a routed
/// event's label starts with `c`, the component's decimal number and `:`.
pub proof fn lemma_component_prefix(id: u64)
    ensures
        ({
            let p = component_prefix(Some(id));
            &&& p.len() == decimal(id as nat).len() + 2
            &&& p[0] == 'c'
            &&& p.last() == ':'
            &&& p.subrange(1, p.len() - 1) == decimal(id as nat)
        }),
        forall|other: u64| other != id ==> component_prefix(Some(other)) != component_prefix(Some(id)),
{
    reveal_strlit("c");
    reveal_strlit(":");
    let p = component_prefix(Some(id));
    assert(p.subrange(1, p.len() - 1) =~= decimal(id as nat));
    assert forall|other: u64| other != id implies component_prefix(Some(other)) != component_prefix(
        Some(id),
    ) by {
        let q = component_prefix(Some(other));
        assert(q.subrange(1, q.len() - 1) =~= decimal(other as nat));
        if q == p {
            lemma_decimal_injective(other as nat, id as nat);
        }
    }
}

/// The width of the box that shows the last key: four cells less than the
/// viewport, kept between 20 and 62.
pub fn keybox_width(viewport_width: u16) -> (r: i32)
    ensures
        r == spec_keybox_width(viewport_width),
{
    let w = viewport_width as i32 - 4;
    let capped = if w < 62 {
        w
    } else {
        62
    };
    if capped > 20 {
        capped
    } else {
        20
    }
}

/// `label` preceded by the spaces that centre it on a line `width` cells
/// wide, counting one cell per byte of the label.
pub fn centred_label(label: &str, width: u16) -> (r: String)
    ensures
        r@ == spaces(centring_pad(width, label.len() as nat)) + label@,
{
    let len = label.len();
    let pad = if len < width as usize {
        (width as usize - len) / 2
    } else {
        0
    };
    pad_left(pad, label)
}

} // verus!
