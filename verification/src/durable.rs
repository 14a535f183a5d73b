//! Append-only event records and safe task recovery for the local-first runtime.
//!
//! An event is stored as one line: timestamp, category, subject and message
//! separated by tabs. Recovery never resumes physical motion on its own.
use vstd::prelude::*;
use crate::text::{
    chars_of, decimal, join_lines, lemma_char_pos, lemma_lines_of_join, lemma_parse_decimal,
    lemma_decimal_digits, lines, lines_exec, parse_unsigned, parse_unsigned_exec, plain_line_text,
    push_char, push_decimal, push_str, split_once, split_once_exec, string_of, is_digit,
};

verus! {

/// One persisted runtime event.
#[derive(Clone, Debug, PartialEq, Eq)]
pub struct DurableEvent {
    pub timestamp_ms: u128,
    pub category: String,
    pub subject: String,
    pub message: String,
}

/// The plain values of an event: timestamp, category, subject, message.
pub open spec fn event_view(e: DurableEvent) -> (u128, Seq<char>, Seq<char>, Seq<char>) {
    (e.timestamp_ms, e.category@, e.subject@, e.message@)
}

/// The stored line of an event (without its terminating newline).
pub open spec fn event_line(e: (u128, Seq<char>, Seq<char>, Seq<char>)) -> Seq<char> {
    decimal(e.0 as nat) + seq!['\t'] + e.1 + seq!['\t'] + e.2 + seq!['\t'] + e.3
}

/// What a stored line reads back as: the text up to the first three tabs gives the
/// timestamp (an unsigned decimal), category and subject; the rest is the message.
/// A line with fewer than three tabs or a bad timestamp is no event.
pub open spec fn parse_event_spec(line: Seq<char>) -> Option<(u128, Seq<char>, Seq<char>, Seq<char>)> {
    match split_once(line, '\t') {
        None => None,
        Some((a, r1)) => match split_once(r1, '\t') {
            None => None,
            Some((b, r2)) => match split_once(r2, '\t') {
                None => None,
                Some((c, d)) => match parse_unsigned(a, u128::MAX as nat) {
                    Some(ts) => Some((ts as u128, b, c, d)),
                    None => None,
                },
            },
        },
    }
}

/// The events read from a list of lines; lines that are no event are skipped.
pub open spec fn parse_lines_spec(ls: Seq<Seq<char>>) -> Seq<(u128, Seq<char>, Seq<char>, Seq<char>)>
    decreases ls.len(),
{
    if ls.len() == 0 {
        seq![]
    } else {
        let rest = parse_lines_spec(ls.drop_last());
        match parse_event_spec(ls.last()) {
            Some(e) => rest.push(e),
            None => rest,
        }
    }
}

/// The events read from a whole log text.
pub open spec fn parse_log_spec(content: Seq<char>) -> Seq<(u128, Seq<char>, Seq<char>, Seq<char>)> {
    parse_lines_spec(lines(content))
}

/// The stored line of an event, with its newline (what appending to the log writes).
pub fn format_event_line(event: &DurableEvent) -> (line: String)
    ensures
        line@ == event_line(event_view(*event)) + seq!['\n'],
{
    let mut line = String::new();
    push_decimal(&mut line, event.timestamp_ms);
    push_char(&mut line, '\t');
    push_str(&mut line, event.category.as_str());
    push_char(&mut line, '\t');
    push_str(&mut line, event.subject.as_str());
    push_char(&mut line, '\t');
    push_str(&mut line, event.message.as_str());
    push_char(&mut line, '\n');
    proof {
        assert(line@ =~= event_line(event_view(*event)) + seq!['\n']);
    }
    line
}

fn parse_chars(line: &[char]) -> (r: Option<DurableEvent>)
    ensures
        match parse_event_spec(line@) {
            Some(e) => r matches Some(x) && event_view(x) == e,
            None => r is None,
        },
{
    let (a, r1) = match split_once_exec(line, '\t') {
        Some(p) => p,
        None => return None,
    };
    let (b, r2) = match split_once_exec(&r1, '\t') {
        Some(p) => p,
        None => return None,
    };
    let (c, d) = match split_once_exec(&r2, '\t') {
        Some(p) => p,
        None => return None,
    };
    let ts = match parse_unsigned_exec(&a, u128::MAX) {
        Some(v) => v,
        None => return None,
    };
    Some(DurableEvent { timestamp_ms: ts, category: string_of(&b), subject: string_of(&c), message: string_of(&d) })
}

/// Reads one stored line back as an event.
pub fn parse_event_line(line: &str) -> (r: Option<DurableEvent>)
    ensures
        match parse_event_spec(line@) {
            Some(e) => r matches Some(x) && event_view(x) == e,
            None => r is None,
        },
{
    let cs = chars_of(line);
    parse_chars(&cs)
}

/// Reads every event of a log text, in order, skipping lines that are no event.
pub fn parse_event_log(content: &str) -> (events: Vec<DurableEvent>)
    ensures
        events@.map_values(|e: DurableEvent| event_view(e)) == parse_log_spec(content@),
{
    let cs = chars_of(content);
    let ls = lines_exec(&cs);
    let ghost all = lines(content@);
    let mut events: Vec<DurableEvent> = Vec::new();
    let mut i: usize = 0;
    while i < ls.len()
        invariant
            all == lines(content@),
            ls@.len() == all.len(),
            forall|j: int| 0 <= j < ls@.len() ==> #[trigger] ls@[j]@ == all[j],
            i <= ls@.len(),
            events@.map_values(|e: DurableEvent| event_view(e)) == parse_lines_spec(all.subrange(0, i as int)),
        decreases ls@.len() - i,
    {
        proof {
            assert(ls@[i as int]@ == all[i as int]);
            assert(all.subrange(0, i + 1).drop_last() =~= all.subrange(0, i as int));
        }
        let parsed = parse_chars(&ls[i]);
        match parsed {
            Some(e) => {
                events.push(e);
            },
            None => {},
        }
        i = i + 1;
        proof {
            assert(events@.map_values(|e: DurableEvent| event_view(e)) =~= parse_lines_spec(all.subrange(0, i as int)));
        }
    }
    proof {
        assert(all.subrange(0, all.len() as int) =~= all);
    }
    events
}

/// Whether an event can be stored and read back unchanged: its category and subject
/// hold no tab or newline, and its message holds no newline and does not end in `'\r'`.
pub open spec fn storable(e: (u128, Seq<char>, Seq<char>, Seq<char>)) -> bool {
    &&& forall|i: int| 0 <= i < e.1.len() ==> #[trigger] e.1[i] != '\t' && e.1[i] != '\n'
    &&& forall|i: int| 0 <= i < e.2.len() ==> #[trigger] e.2[i] != '\t' && e.2[i] != '\n'
    &&& plain_line_text(e.3)
}

proof fn lemma_parse_event_line(e: (u128, Seq<char>, Seq<char>, Seq<char>))
    requires
        storable(e),
    ensures
        parse_event_spec(event_line(e)) == Some(e),
        plain_line_text(event_line(e)),
{
    let d = decimal(e.0 as nat);
    lemma_decimal_digits(e.0 as nat);
    lemma_parse_decimal(e.0 as nat, u128::MAX as nat);
    let line = event_line(e);
    let r1 = e.1 + seq!['\t'] + e.2 + seq!['\t'] + e.3;
    let r2 = e.2 + seq!['\t'] + e.3;
    assert(line =~= d + seq!['\t'] + r1);
    assert forall|j: int| 0 <= j < d.len() implies d[j] != '\t' by {
        assert(is_digit(d[j]));
    }
    lemma_char_pos(line, '\t', d.len() as int);
    assert(line.subrange(0, d.len() as int) =~= d);
    assert(line.subrange(d.len() as int + 1, line.len() as int) =~= r1);
    lemma_char_pos(r1, '\t', e.1.len() as int);
    assert(r1.subrange(0, e.1.len() as int) =~= e.1);
    assert(r1.subrange(e.1.len() as int + 1, r1.len() as int) =~= r2);
    lemma_char_pos(r2, '\t', e.2.len() as int);
    assert(r2.subrange(0, e.2.len() as int) =~= e.2);
    assert(r2.subrange(e.2.len() as int + 1, r2.len() as int) =~= e.3);
    assert forall|j: int| 0 <= j < line.len() implies #[trigger] line[j] != '\n' by {
        if j < d.len() {
            assert(is_digit(d[j]));
        } else if j > d.len() && j < d.len() + 1 + e.1.len() {
            assert(line[j] == e.1[j - d.len() - 1]);
        } else if j > d.len() + e.1.len() + 1 && j < d.len() + e.1.len() + 2 + e.2.len() {
            assert(line[j] == e.2[j - d.len() - e.1.len() - 2]);
        } else if j > d.len() + e.1.len() + e.2.len() + 2 {
            assert(line[j] == e.3[j - d.len() - e.1.len() - e.2.len() - 3]);
        }
    }
    if e.3.len() > 0 {
        assert(line.last() == e.3.last());
    } else {
        assert(line.last() == '\t');
    }
}

proof fn lemma_parse_lines_of_events(es: Seq<(u128, Seq<char>, Seq<char>, Seq<char>)>)
    requires
        forall|i: int| 0 <= i < es.len() ==> storable(#[trigger] es[i]),
    ensures
        parse_lines_spec(es.map_values(|e: (u128, Seq<char>, Seq<char>, Seq<char>)| event_line(e))) == es,
    decreases es.len(),
{
    let ls = es.map_values(|e: (u128, Seq<char>, Seq<char>, Seq<char>)| event_line(e));
    if es.len() > 0 {
        lemma_parse_lines_of_events(es.drop_last());
        assert(ls.drop_last() =~= es.drop_last().map_values(|e: (u128, Seq<char>, Seq<char>, Seq<char>)| event_line(e)));
        lemma_parse_event_line(es.last());
        assert(es.drop_last().push(es.last()) =~= es);
    } else {
        assert(ls =~= Seq::<Seq<char>>::empty());
    }
}

/// Reading a log gives back exactly the events appended to it, in order, provided
/// each event is storable (no separator inside its fields).
pub proof fn law_log_read_returns_appended(es: Seq<(u128, Seq<char>, Seq<char>, Seq<char>)>)
    requires
        forall|i: int| 0 <= i < es.len() ==> storable(#[trigger] es[i]),
    ensures
        parse_log_spec(join_lines(es.map_values(|e: (u128, Seq<char>, Seq<char>, Seq<char>)| event_line(e)))) == es,
{
    let ls = es.map_values(|e: (u128, Seq<char>, Seq<char>, Seq<char>)| event_line(e));
    assert forall|i: int| 0 <= i < ls.len() implies plain_line_text(#[trigger] ls[i]) by {
        lemma_parse_event_line(es[i]);
    }
    lemma_lines_of_join(ls);
    lemma_parse_lines_of_events(es);
}

/// What the runtime may do with a persisted task after a restart.
#[derive(Clone, Copy, Debug, PartialEq, Eq, Structural)]
pub enum RecoveryDecision {
    ResumeNonMotion,
    RestartStep,
    RequireOperator,
    Abort,
}

/// Decides how a persisted task is recovered: physical motion always waits for an
/// operator; other work resumes once the robot state is reconciled, and restarts its
/// step otherwise.
pub fn recovery_decision(was_physical_motion: bool, robot_state_reconciled: bool) -> (d: RecoveryDecision)
    ensures
        was_physical_motion ==> d == RecoveryDecision::RequireOperator,
        !was_physical_motion && robot_state_reconciled ==> d == RecoveryDecision::ResumeNonMotion,
        !was_physical_motion && !robot_state_reconciled ==> d == RecoveryDecision::RestartStep,
{
    if was_physical_motion {
        RecoveryDecision::RequireOperator
    } else if robot_state_reconciled {
        RecoveryDecision::ResumeNonMotion
    } else {
        RecoveryDecision::RestartStep
    }
}

} // verus!
