//! The wire format: from a topic and a payload to a command.
//!
//! A topic ends in `<line>/<direction id>`. A payload is text made of records
//! separated by line feeds: the last record is the time of the update, each
//! record before it is one passage, `destination|minutes|...`.

use vstd::prelude::*;
use vstd::utf8::{decode_utf8, valid_utf8};
use crate::bounded::PassageList;
use crate::display::{
    lemma_update_is_stored, place_of, CommandModel, DirectionModel, PassageModel, TramNextPassage,
    UiCommand, UiModel, MAX_PASSAGES,
};
use crate::text::{chars_of, prefix, BoundedString};

verus! {

/// The pieces into which the separator `sep` cuts `s`: one more than `s` holds
/// separators, in order, none of them holding a separator.
pub open spec fn split(s: Seq<char>, sep: char) -> Seq<Seq<char>>
    decreases s.len(),
{
    if s.len() == 0 {
        seq![Seq::empty()]
    } else {
        let before = split(s.drop_last(), sep);
        if s.last() == sep {
            before.push(Seq::empty())
        } else {
            before.update(before.len() - 1, before.last().push(s.last()))
        }
    }
}

/// Whether `sep` occurs nowhere in `s`.
pub open spec fn free_of(s: Seq<char>, sep: char) -> bool {
    forall|i: int| 0 <= i < s.len() ==> s[i] != sep
}

/// Cutting always gives at least one piece.
pub proof fn lemma_split_nonempty(s: Seq<char>, sep: char)
    ensures
        split(s, sep).len() >= 1,
    decreases s.len(),
{
    if s.len() > 0 {
        lemma_split_nonempty(s.drop_last(), sep);
    }
}

/// The pieces `pieces` put together again, with the separator `sep` between
/// each two of them.
pub open spec fn join(pieces: Seq<Seq<char>>, sep: char) -> Seq<char>
    decreases pieces.len(),
{
    if pieces.len() == 0 {
        Seq::empty()
    } else if pieces.len() == 1 {
        pieces[0]
    } else {
        join(pieces.drop_last(), sep).push(sep) + pieces.last()
    }
}

/// Cutting loses nothing and leaves no separator: the pieces of `s` put
/// together again are `s`, and none of them holds the separator.
pub proof fn lemma_split_is_faithful(s: Seq<char>, sep: char)
    ensures
        join(split(s, sep), sep) == s,
        forall|i: int| 0 <= i < split(s, sep).len() ==> free_of(#[trigger] split(s, sep)[i], sep),
    decreases s.len(),
{
    let pieces = split(s, sep);
    if s.len() > 0 {
        let shorter = s.drop_last();
        let before = split(shorter, sep);
        lemma_split_is_faithful(shorter, sep);
        lemma_split_nonempty(shorter, sep);
        assert(shorter.push(s.last()) =~= s);
        if s.last() == sep {
            assert(pieces.drop_last() =~= before);
        } else if before.len() > 1 {
            assert(pieces.drop_last() =~= before.drop_last());
        }
        assert forall|i: int| 0 <= i < pieces.len() implies free_of(#[trigger] pieces[i], sep) by {}
    }
}

/// A sequence without separator is its own single piece.
pub proof fn lemma_split_whole(s: Seq<char>, sep: char)
    requires
        free_of(s, sep),
    ensures
        split(s, sep) == seq![s],
    decreases s.len(),
{
    if s.len() > 0 {
        let shorter = s.drop_last();
        assert forall|i: int| 0 <= i < shorter.len() implies shorter[i] != sep by {}
        lemma_split_whole(shorter, sep);
        assert(shorter.push(s.last()) =~= s);
    } else {
        assert(s =~= Seq::<char>::empty());
    }
}

/// The pieces of `a`, a separator and `b` are the pieces of `a` followed by
/// the pieces of `b`.
pub proof fn lemma_split_join(a: Seq<char>, b: Seq<char>, sep: char)
    ensures
        split(a.push(sep) + b, sep) == split(a, sep) + split(b, sep),
    decreases b.len(),
{
    let whole = a.push(sep) + b;
    lemma_split_nonempty(a, sep);
    if b.len() == 0 {
        assert(whole.drop_last() == a);
    } else {
        let shorter = b.drop_last();
        lemma_split_join(a, shorter, sep);
        lemma_split_nonempty(shorter, sep);
        assert(whole.drop_last() == a.push(sep) + shorter);
    }
}

/// `s` seen as what stands before place `at`, the item there, and what follows.
pub proof fn lemma_cut_at(s: Seq<char>, at: int)
    requires
        0 <= at < s.len(),
    ensures
        s == s.take(at).push(s[at]) + s.skip(at + 1),
{
}

/// The first place at or after `from`, and before `end`, where `s` holds
/// `sep`; `end` where there is none.
fn find_first(s: &Vec<char>, sep: char, from: usize, end: usize) -> (at: usize)
    requires
        from <= end <= s@.len(),
    ensures
        from <= at <= end,
        free_of(s@.subrange(from as int, at as int), sep),
        at < end ==> s@[at as int] == sep,
{
    let mut i: usize = from;
    while i < end
        invariant
            from <= i <= end <= s@.len(),
            free_of(s@.subrange(from as int, i as int), sep),
        decreases end - i,
    {
        if s[i] == sep {
            return i;
        }
        i += 1;
    }
    end
}

/// The last place before `end` where `s` holds `sep`, if there is one.
fn find_last(s: &Vec<char>, sep: char, end: usize) -> (at: Option<usize>)
    requires
        end <= s@.len(),
    ensures
        match at {
            Some(i) => i < end && s@[i as int] == sep && free_of(
                s@.subrange(i + 1, end as int),
                sep,
            ),
            None => free_of(s@.take(end as int), sep),
        },
{
    let mut i: usize = end;
    while i > 0
        invariant
            i <= end <= s@.len(),
            free_of(s@.subrange(i as int, end as int), sep),
        decreases i,
    {
        i -= 1;
        if s[i] == sep {
            return Some(i);
        }
        assert forall|k: int| 0 <= k < end - i implies s@.subrange(i as int, end as int)[k]
            != sep by {
            if k > 0 {
                assert(s@.subrange(i as int, end as int)[k] == s@.subrange(i + 1, end as int)[k - 1]);
            }
        }
    }
    None
}

/// Whether `c` is one of the ten decimal digits.
pub open spec fn is_digit(c: char) -> bool {
    '0' <= c <= '9'
}

/// The number that the digit `c` stands for.
pub open spec fn digit_value(c: char) -> nat {
    if is_digit(c) {
        (c as u32 - '0' as u32) as nat
    } else {
        0
    }
}

/// The number that the decimal digits `digits` write.
pub open spec fn digits_value(digits: Seq<char>) -> nat
    decreases digits.len(),
{
    if digits.len() == 0 {
        0
    } else {
        digits_value(digits.drop_last()) * 10 + digit_value(digits.last())
    }
}

/// Whether `s` holds decimal digits only.
pub open spec fn all_digits(s: Seq<char>) -> bool {
    forall|i: int| 0 <= i < s.len() ==> is_digit(s[i])
}

/// The number that `s` writes: an optional `+`, then one or more decimal
/// digits and nothing else.
pub open spec fn parse_number(s: Seq<char>) -> Option<nat> {
    let digits = if s.len() > 0 && s[0] == '+' {
        s.skip(1)
    } else {
        s
    };
    if digits.len() > 0 && all_digits(digits) {
        Some(digits_value(digits))
    } else {
        None
    }
}

/// The number that `s` writes, where it writes one that is at most `limit`.
pub open spec fn parse_up_to(s: Seq<char>, limit: nat) -> Option<nat> {
    match parse_number(s) {
        Some(value) => if value <= limit {
            Some(value)
        } else {
            None
        },
        None => None,
    }
}

/// Digits added at the end never make the number smaller.
pub proof fn lemma_digits_grow(digits: Seq<char>, shorter: int)
    requires
        0 <= shorter <= digits.len(),
    ensures
        digits_value(digits.take(shorter)) <= digits_value(digits),
    decreases digits.len(),
{
    if shorter == digits.len() {
        assert(digits.take(shorter) == digits);
    } else {
        lemma_digits_grow(digits.drop_last(), shorter);
        assert(digits.drop_last().take(shorter) == digits.take(shorter));
    }
}

/// Reads `s[from..end]` as a number of at most `limit`.
fn read_number(s: &Vec<char>, from: usize, end: usize, limit: u64) -> (value: Option<u64>)
    requires
        from <= end <= s@.len(),
    ensures
        match value {
            Some(v) => parse_up_to(s@.subrange(from as int, end as int), limit as nat) == Some(
                v as nat,
            ),
            None => parse_up_to(s@.subrange(from as int, end as int), limit as nat) is None,
        },
{
    let ghost whole = s@.subrange(from as int, end as int);
    let first: usize = if from < end && s[from] == '+' {
        from + 1
    } else {
        from
    };
    let ghost digits = s@.subrange(first as int, end as int);
    if first == end {
        return None;
    }
    let mut total: u64 = 0;
    let mut i: usize = first;
    while i < end
        invariant
            first <= i <= end <= s@.len(),
            first < end,
            whole == s@.subrange(from as int, end as int),
            digits == s@.subrange(first as int, end as int),
            digits == if whole.len() > 0 && whole[0] == '+' {
                whole.skip(1)
            } else {
                whole
            },
            all_digits(digits.take(i - first)),
            total == digits_value(digits.take(i - first)),
            total <= limit,
        decreases end - i,
    {
        let c: char = s[i];
        let ghost longer = digits.take(i + 1 - first);
        assert(longer.drop_last() == digits.take(i - first));
        assert(longer.last() == c);
        if c < '0' || c > '9' {
            return None;
        }
        let d: u64 = (c as u32 - '0' as u32) as u64;
        if d > limit || total > (limit - d) / 10 {
            proof {
                lemma_digits_grow(digits, i + 1 - first);
            }
            return None;
        }
        total = total * 10 + d;
        i += 1;
    }
    assert(digits.take(end - first) == digits);
    Some(total)
}

/// `s` ends in its last piece: the one after the last separator.
pub proof fn lemma_last_piece(s: Seq<char>, sep: char, at: int)
    requires
        0 <= at < s.len(),
        s[at] == sep,
        free_of(s.subrange(at + 1, s.len() as int), sep),
    ensures
        split(s, sep) == split(s.take(at), sep).push(s.subrange(at + 1, s.len() as int)),
{
    let tail = s.subrange(at + 1, s.len() as int);
    lemma_cut_at(s, at);
    lemma_split_join(s.take(at), tail, sep);
    lemma_split_whole(tail, sep);
}

/// `s` begins with its first piece: the one before the first separator.
pub proof fn lemma_first_piece(s: Seq<char>, sep: char, at: int)
    requires
        0 <= at < s.len(),
        s[at] == sep,
        free_of(s.take(at), sep),
    ensures
        split(s, sep) == seq![s.take(at)] + split(s.skip(at + 1), sep),
{
    lemma_cut_at(s, at);
    lemma_split_join(s.take(at), s.skip(at + 1), sep);
    lemma_split_whole(s.take(at), sep);
}

/// Why a topic and its payload give no command.
#[derive(Debug, Clone, Copy, PartialEq, Eq, Structural)]
pub enum DecodeError {
    /// The topic has fewer than two components.
    MalformedTopic,
    /// The last component of the topic is not a number that an identifier can hold.
    MalformedDirectionId,
    /// A passage record gives no number of minutes from 0 to 255.
    MalformedArrival,
    /// The payload is not text.
    MalformedPayload,
}

/// The most characters kept of a line name.
pub const LINE_NAME_LENGTH: usize = 16;

/// The most characters kept of a destination.
pub const DESTINATION_LENGTH: usize = 32;

/// The most characters kept of the time of an update.
pub const UPDATE_TIME_LENGTH: usize = 10;

/// The line name and the direction that a topic names.
///
/// The topic is cut at each `/`. Its last component is the direction, a
/// number; the one before it is the line name, of which the first sixteen
/// characters are kept.
pub open spec fn decode_topic(topic: Seq<char>) -> Result<(Seq<char>, usize), DecodeError> {
    let parts = split(topic, '/');
    if parts.len() < 2 {
        Err(DecodeError::MalformedTopic)
    } else {
        match parse_up_to(parts.last(), usize::MAX as nat) {
            Some(id) => Ok((prefix(parts[parts.len() - 2], LINE_NAME_LENGTH as nat), id as usize)),
            None => Err(DecodeError::MalformedDirectionId),
        }
    }
}

/// The passage that one record gives.
///
/// The record is cut at each `|`. With fewer than two fields it gives no
/// passage and is passed over. Otherwise the first field is the destination,
/// of which the first thirty-two characters are kept, and the second is the
/// number of minutes, from 0 to 255; further fields are not read.
pub open spec fn decode_record(record: Seq<char>) -> Result<Option<PassageModel>, DecodeError> {
    let fields = split(record, '|');
    if fields.len() < 2 {
        Ok(None)
    } else {
        match parse_up_to(fields[1], u8::MAX as nat) {
            Some(minutes) => Ok(
                Some(
                    PassageModel {
                        destination: prefix(fields[0], DESTINATION_LENGTH as nat),
                        relative_arrival: minutes as u8,
                    },
                ),
            ),
            None => Err(DecodeError::MalformedArrival),
        }
    }
}

/// The passages that `records` give, in order; the failure of a record is the
/// failure of them all.
pub open spec fn collect_passages(records: Seq<Seq<char>>) -> Result<Seq<PassageModel>, DecodeError>
    decreases records.len(),
{
    if records.len() == 0 {
        Ok(Seq::empty())
    } else {
        match collect_passages(records.drop_last()) {
            Err(e) => Err(e),
            Ok(earlier) => match decode_record(records.last()) {
                Err(e) => Err(e),
                Ok(None) => Ok(earlier),
                Ok(Some(passage)) => Ok(earlier.push(passage)),
            },
        }
    }
}

/// The passages and the time of the update that a payload gives.
///
/// The payload is cut at each line feed. Its last record is the time of the
/// update, of which the first ten characters are kept. The records before it
/// give the passages, of which the first three are kept.
pub open spec fn decode_payload(text: Seq<char>) -> Result<(Seq<PassageModel>, Seq<char>), DecodeError> {
    let records = split(text, '\n');
    match collect_passages(records.drop_last()) {
        Ok(passages) => Ok(
            (prefix(passages, MAX_PASSAGES as nat), prefix(records.last(), UPDATE_TIME_LENGTH as nat)),
        ),
        Err(e) => Err(e),
    }
}

/// The number of passages that the text of a payload gives, before any of
/// them is left out for want of room.
pub open spec fn passage_count(text: Seq<char>) -> Result<nat, DecodeError> {
    match collect_passages(split(text, '\n').drop_last()) {
        Ok(passages) => Ok(passages.len()),
        Err(e) => Err(e),
    }
}

/// The number of passages that the bytes of a payload give: the bytes must be
/// UTF-8, and the text that they encode is read as `passage_count` says.
pub open spec fn passages_given(payload: Seq<u8>) -> Result<nat, DecodeError> {
    if valid_utf8(payload) {
        passage_count(decode_utf8(payload))
    } else {
        Err(DecodeError::MalformedPayload)
    }
}

/// The command that a topic and the text of a payload give. A fault of the
/// topic is reported before one of the payload.
pub open spec fn command_of_text(topic: Seq<char>, text: Seq<char>) -> Result<CommandModel, DecodeError> {
    match decode_topic(topic) {
        Err(e) => Err(e),
        Ok((line, direction_id)) => match decode_payload(text) {
            Err(e) => Err(e),
            Ok((next_passages, update_at)) => Ok(
                CommandModel::UpdateDirection { line, direction_id, next_passages, update_at },
            ),
        },
    }
}

/// The command that a topic and the bytes of a payload give: the bytes must be
/// UTF-8, and the text that they encode is read as `command_of_text` says.
pub open spec fn command_of(topic: Seq<char>, payload: Seq<u8>) -> Result<CommandModel, DecodeError> {
    match decode_topic(topic) {
        Err(e) => Err(e),
        Ok(_) => if valid_utf8(payload) {
            command_of_text(topic, decode_utf8(payload))
        } else {
            Err(DecodeError::MalformedPayload)
        },
    }
}

/// What the outcome of decoding is, as a mathematical value.
pub open spec fn outcome_view(outcome: Result<UiCommand, DecodeError>) -> Result<
    CommandModel,
    DecodeError,
> {
    match outcome {
        Ok(cmd) => Ok(cmd@),
        Err(e) => Err(e),
    }
}

/// What the outcome of reading a topic is, as a mathematical value.
pub open spec fn topic_view(outcome: Result<(BoundedString<16>, usize), DecodeError>) -> Result<
    (Seq<char>, usize),
    DecodeError,
> {
    match outcome {
        Ok((line, id)) => Ok((line@, id)),
        Err(e) => Err(e),
    }
}

/// What the outcome of reading a record is, as a mathematical value.
pub open spec fn record_view(outcome: Result<Option<TramNextPassage>, DecodeError>) -> Result<
    Option<PassageModel>,
    DecodeError,
> {
    match outcome {
        Ok(Some(passage)) => Ok(Some(passage@)),
        Ok(None) => Ok(None),
        Err(e) => Err(e),
    }
}

/// What the outcome of reading a payload is, as a mathematical value.
pub open spec fn payload_view(outcome: Result<(PassageList, BoundedString<10>), DecodeError>) -> Result<
    (Seq<PassageModel>, Seq<char>),
    DecodeError,
> {
    match outcome {
        Ok((passages, update_at)) => Ok((passages@, update_at@)),
        Err(e) => Err(e),
    }
}

/// What the outcome of counting is, as a mathematical value.
pub open spec fn count_view(outcome: Result<usize, DecodeError>) -> Result<nat, DecodeError> {
    match outcome {
        Ok(count) => Ok(count as nat),
        Err(e) => Err(e),
    }
}

/// The passages, the time of the update and the number of passages given
/// that the outcome of reading a payload holds.
pub open spec fn payload_of(outcome: Result<(PassageList, BoundedString<10>, usize), DecodeError>) -> Result<
    (PassageList, BoundedString<10>),
    DecodeError,
> {
    match outcome {
        Ok((passages, update_at, _)) => Ok((passages, update_at)),
        Err(e) => Err(e),
    }
}

/// The number of passages given that the outcome of reading a payload holds.
pub open spec fn count_of(outcome: Result<(PassageList, BoundedString<10>, usize), DecodeError>) -> Result<
    usize,
    DecodeError,
> {
    match outcome {
        Ok((_, _, count)) => Ok(count),
        Err(e) => Err(e),
    }
}

/// Once a record has failed, the records after it change nothing.
pub proof fn lemma_collect_fails(records: Seq<Seq<char>>, more: Seq<Seq<char>>)
    requires
        collect_passages(records) is Err,
    ensures
        collect_passages(records + more) == collect_passages(records),
    decreases more.len(),
{
    if more.len() == 0 {
    } else {
        lemma_collect_fails(records, more.drop_last());
        assert((records + more).drop_last() == records + more.drop_last());
    }
}

/// Whether every record of `text` before the last gives a passage.
pub open spec fn well_formed_payload(text: Seq<char>) -> bool {
    let records = split(text, '\n');
    forall|i: int|
        0 <= i < records.len() - 1 ==> (#[trigger] decode_record(records[i])) matches Ok(Some(_))
}

/// Records that each give a passage give as many passages as there are records.
pub proof fn lemma_collect_all(records: Seq<Seq<char>>)
    requires
        forall|i: int|
            0 <= i < records.len() ==> (#[trigger] decode_record(records[i])) matches Ok(Some(_)),
    ensures
        collect_passages(records) is Ok,
        collect_passages(records)->Ok_0.len() == records.len(),
    decreases records.len(),
{
    if records.len() > 0 {
        let earlier = records.drop_last();
        assert forall|i: int| 0 <= i < earlier.len() implies (#[trigger] decode_record(
            earlier[i],
        )) matches Ok(Some(_)) by {}
        lemma_collect_all(earlier);
    }
}

/// A payload gives a count of passages exactly when it can be decoded, and
/// decoding keeps as many passages as it gives, up to three.
pub proof fn lemma_passages_kept(text: Seq<char>)
    ensures
        passage_count(text) is Ok <==> decode_payload(text) is Ok,
        decode_payload(text) matches Ok((passages, _)) ==> passage_count(text) matches Ok(given)
            && passages.len() == if given <= MAX_PASSAGES {
            given
        } else {
            MAX_PASSAGES as nat
        },
{
}

/// A topic with fewer than two components gives no command, whatever the payload.
pub proof fn lemma_short_topic_rejected(topic: Seq<char>, payload: Seq<u8>, text: Seq<char>)
    requires
        split(topic, '/').len() < 2,
    ensures
        command_of(topic, payload) is Err,
        command_of(topic, payload)->Err_0 == DecodeError::MalformedTopic,
        command_of_text(topic, text) is Err,
        command_of_text(topic, text)->Err_0 == DecodeError::MalformedTopic,
{
}

/// A topic whose last component is no number gives no command, whatever the payload.
pub proof fn lemma_bad_direction_rejected(topic: Seq<char>, payload: Seq<u8>, text: Seq<char>)
    requires
        split(topic, '/').len() >= 2,
        parse_up_to(split(topic, '/').last(), usize::MAX as nat) is None,
    ensures
        command_of(topic, payload) is Err,
        command_of(topic, payload)->Err_0 == DecodeError::MalformedDirectionId,
        command_of_text(topic, text) is Err,
        command_of_text(topic, text)->Err_0 == DecodeError::MalformedDirectionId,
{
}

/// A payload that is text is read as its text.
pub proof fn lemma_command_of_text(topic: Seq<char>, payload: Seq<u8>)
    requires
        valid_utf8(payload),
    ensures
        command_of(topic, payload) == command_of_text(topic, decode_utf8(payload)),
{
}

/// A well-formed payload of `n` passage records and the time of the update,
/// decoded and then applied to a model that has room for it, leaves in the
/// model the direction that the topic names, with the first three of the `n`
/// passages at most and with the first ten characters of the time.
pub proof fn lemma_decoded_update_is_stored(model: UiModel, topic: Seq<char>, text: Seq<char>)
    requires
        decode_topic(topic) is Ok,
        well_formed_payload(text),
        model.has_room_for(decode_topic(topic)->Ok_0.0, decode_topic(topic)->Ok_0.1),
    ensures
        command_of_text(topic, text) is Ok,
        ({
            let records = split(text, '\n');
            let n = records.len() - 1;
            let (line, direction_id) = decode_topic(topic)->Ok_0;
            let after = model.apply(command_of_text(topic, text)->Ok_0);
            &&& place_of(after, line, direction_id) is Some
            &&& place_of(after, line, direction_id) matches Some((at, slot)) ==> {
                let stored = after.lines[at].directions[slot];
                &&& stored.direction_id == direction_id
                &&& stored.next_passages.len() == if n <= MAX_PASSAGES {
                    n
                } else {
                    MAX_PASSAGES as int
                }
                &&& stored.update_at == prefix(records.last(), UPDATE_TIME_LENGTH as nat)
            }
        }),
{
    let records = split(text, '\n');
    lemma_split_nonempty(text, '\n');
    let passage_records = records.drop_last();
    assert forall|i: int| 0 <= i < passage_records.len() implies (#[trigger] decode_record(
        passage_records[i],
    )) matches Ok(Some(_)) by {}
    lemma_collect_all(passage_records);
    let (line, direction_id) = decode_topic(topic)->Ok_0;
    let (next_passages, update_at) = decode_payload(text)->Ok_0;
    lemma_update_is_stored(model, line, DirectionModel { update_at, direction_id, next_passages });
}

/// Reads the topic `topic`, as `decode_topic` says.
pub fn parse_topic(topic: &str) -> (outcome: Result<(BoundedString<16>, usize), DecodeError>)
    ensures
        topic_view(outcome) == decode_topic(topic@),
{
    let chars = chars_of(topic);
    let n: usize = chars.len();
    match find_last(&chars, '/', n) {
        None => {
            proof {
                assert(chars@.take(n as int) == chars@);
                lemma_split_whole(chars@, '/');
            }
            Err(DecodeError::MalformedTopic)
        },
        Some(slash) => {
            let ghost head = chars@.take(slash as int);
            proof {
                lemma_last_piece(chars@, '/', slash as int);
                lemma_split_nonempty(head, '/');
            }
            match read_number(&chars, slash + 1, n, usize::MAX as u64) {
                None => Err(DecodeError::MalformedDirectionId),
                Some(id) => {
                    let start: usize = match find_last(&chars, '/', slash) {
                        None => {
                            proof {
                                lemma_split_whole(head, '/');
                            }
                            0
                        },
                        Some(before) => {
                            proof {
                                assert(head.subrange(before + 1, head.len() as int) == chars@.subrange(
                                    before + 1,
                                    slash as int,
                                ));
                                lemma_last_piece(head, '/', before as int);
                            }
                            before + 1
                        },
                    };
                    let line = BoundedString::<16>::from_range(&chars, start, slash);
                    Ok((line, id as usize))
                },
            }
        },
    }
}

/// Reads the record `s[start..end]`, as `decode_record` says.
fn parse_record(s: &Vec<char>, start: usize, end: usize) -> (outcome: Result<
    Option<TramNextPassage>,
    DecodeError,
>)
    requires
        start <= end <= s@.len(),
    ensures
        record_view(outcome) == decode_record(s@.subrange(start as int, end as int)),
{
    let ghost record = s@.subrange(start as int, end as int);
    let bar: usize = find_first(s, '|', start, end);
    if bar == end {
        proof {
            lemma_split_whole(record, '|');
        }
        return Ok(None);
    }
    let stop: usize = find_first(s, '|', bar + 1, end);
    let ghost rest = s@.subrange(bar + 1, end as int);
    proof {
        assert(record.take(bar - start) == s@.subrange(start as int, bar as int));
        assert(record.skip(bar - start + 1) == rest);
        lemma_first_piece(record, '|', bar - start);
        lemma_split_nonempty(rest, '|');
        if stop == end {
            lemma_split_whole(rest, '|');
        } else {
            assert(rest.take(stop - bar - 1) == s@.subrange(bar + 1, stop as int));
            lemma_first_piece(rest, '|', stop - bar - 1);
        }
    }
    match read_number(s, bar + 1, stop, 255) {
        None => Err(DecodeError::MalformedArrival),
        Some(minutes) => Ok(
            Some(
                TramNextPassage {
                    destination: BoundedString::<32>::from_range(s, start, bar),
                    relative_arrival: minutes as u8,
                },
            ),
        ),
    }
}

/// Reads the payload `text`, as `decode_payload` says.
pub fn parse_payload(text: &str) -> (outcome: Result<(PassageList, BoundedString<10>), DecodeError>)
    ensures
        payload_view(outcome) == decode_payload(text@),
{
    match read_payload(text) {
        Ok((passages, update_at, _)) => Ok((passages, update_at)),
        Err(e) => Err(e),
    }
}

/// Counts the passages that the payload `text` gives, as `passage_count`
/// says. More than three of them are more than a direction holds: those
/// past the third are left out when the payload is decoded.
pub fn count_passages_in_text(text: &str) -> (outcome: Result<usize, DecodeError>)
    ensures
        count_view(outcome) == passage_count(text@),
{
    match read_payload(text) {
        Ok((_, _, count)) => Ok(count),
        Err(e) => Err(e),
    }
}

/// Counts the passages that the payload `payload` gives, as `passages_given`
/// says. More than three of them are more than a direction holds: those
/// past the third are left out when the payload is decoded.
pub fn count_passages(payload: &[u8]) -> (outcome: Result<usize, DecodeError>)
    ensures
        count_view(outcome) == passages_given(payload@),
{
    match text_of(payload) {
        None => Err(DecodeError::MalformedPayload),
        Some(text) => count_passages_in_text(text),
    }
}

/// Reads the payload `text`: its passages and the time of its update, as
/// `decode_payload` says, and the number of passages that it gives, as
/// `passage_count` says.
fn read_payload(text: &str) -> (outcome: Result<(PassageList, BoundedString<10>, usize), DecodeError>)
    ensures
        payload_view(payload_of(outcome)) == decode_payload(text@),
        count_view(count_of(outcome)) == passage_count(text@),
{
    let chars = chars_of(text);
    let n: usize = chars.len();
    let ghost records = split(chars@, '\n');
    let mut passages = PassageList::new();
    match find_last(&chars, '\n', n) {
        None => {
            proof {
                assert(chars@.take(n as int) == chars@);
                lemma_split_whole(chars@, '\n');
            }
            Ok((passages, BoundedString::<10>::from_range(&chars, 0, n), 0))
        },
        Some(feed) => {
            let ghost body = chars@.take(feed as int);
            proof {
                lemma_last_piece(chars@, '\n', feed as int);
                lemma_split_nonempty(chars@, '\n');
                assert(body.subrange(0, feed as int) == body);
            }
            let ghost mut done: Seq<Seq<char>> = Seq::empty();
            let ghost mut collected: Seq<PassageModel> = Seq::empty();
            let mut count: usize = 0;
            let mut start: usize = 0;
            let mut open: bool = true;
            while open
                invariant
                    start <= feed < n == chars@.len(),
                    count == collected.len() <= done.len(),
                    open ==> done.len() <= start,
                    !open ==> done.len() <= feed + 1,
                    body == chars@.take(feed as int),
                    chars@ == text@,
                    records == split(chars@, '\n'),
                    records.len() >= 1,
                    records.drop_last() == split(body, '\n'),
                    records.last() == chars@.subrange(feed + 1, n as int),
                    open ==> split(body, '\n') == done + split(
                        body.subrange(start as int, feed as int),
                        '\n',
                    ),
                    !open ==> split(body, '\n') == done,
                    collect_passages(done) == Ok::<Seq<PassageModel>, DecodeError>(collected),
                    passages@ == prefix(collected, MAX_PASSAGES as nat),
                decreases feed - start + if open { 1int } else { 0int },
            {
                let ghost rest = body.subrange(start as int, feed as int);
                let at: usize = find_first(&chars, '\n', start, feed);
                let ghost record = chars@.subrange(start as int, at as int);
                proof {
                    assert(rest == chars@.subrange(start as int, feed as int));
                    if at == feed {
                        lemma_split_whole(rest, '\n');
                        assert(done + seq![rest] == done.push(record));
                    } else {
                        assert(rest.take(at - start) == record);
                        assert(rest.skip(at - start + 1) == body.subrange(at + 1, feed as int));
                        lemma_first_piece(rest, '\n', at - start);
                        assert(done + (seq![record] + split(body.subrange(at + 1, feed as int), '\n'))
                            == done.push(record) + split(body.subrange(at + 1, feed as int), '\n'));
                    }
                    assert(done.push(record).drop_last() == done);
                }
                match parse_record(&chars, start, at) {
                    Err(e) => {
                        proof {
                            if at < feed {
                                lemma_collect_fails(
                                    done.push(record),
                                    split(body.subrange(at + 1, feed as int), '\n'),
                                );
                            }
                        }
                        return Err(e);
                    },
                    Ok(None) => {},
                    Ok(Some(passage)) => {
                        proof {
                            collected = collected.push(passage@);
                        }
                        let _ = passages.push(passage);
                        count += 1;
                    },
                }
                proof {
                    done = done.push(record);
                }
                if at == feed {
                    open = false;
                } else {
                    start = at + 1;
                }
            }
            Ok((passages, BoundedString::<10>::from_range(&chars, feed + 1, n), count))
        },
    }
}

/// Decodes a topic and the text of a payload into the command that they give.
///
/// The outcome is `command_of_text` of the two: the update of one direction, or
/// the reason why there is none.
pub fn parse_mqtt_event(topic: &str, text: &str) -> (outcome: Result<UiCommand, DecodeError>)
    ensures
        outcome_view(outcome) == command_of_text(topic@, text@),
{
    match parse_topic(topic) {
        Err(e) => Err(e),
        Ok((line, direction_id)) => match parse_payload(text) {
            Err(e) => Err(e),
            Ok((next_passages, update_at)) => Ok(
                UiCommand::UpdateDirection { line, direction_id, next_passages, update_at },
            ),
        },
    }
}

/// `core::str::from_utf8`: the text that `bytes` encode, where they are
/// well-formed UTF-8, and nothing where they are not.
#[verifier::external_body]
fn text_of(bytes: &[u8]) -> (text: Option<&str>)
    ensures
        text is Some <==> valid_utf8(bytes@),
        text is Some ==> text->0@ == decode_utf8(bytes@),
{
    core::str::from_utf8(bytes).ok()
}

/// Decodes a topic and the bytes of a payload into the command that they give.
///
/// The outcome is `command_of` of the two: the update of one direction, or the
/// reason why there is none.
pub fn decode(topic: &str, payload: &[u8]) -> (outcome: Result<UiCommand, DecodeError>)
    ensures
        outcome_view(outcome) == command_of(topic@, payload@),
{
    match parse_topic(topic) {
        Err(e) => Err(e),
        Ok((line, direction_id)) => match text_of(payload) {
            None => Err(DecodeError::MalformedPayload),
            Some(text) => match parse_payload(text) {
                Err(e) => Err(e),
                Ok((next_passages, update_at)) => Ok(
                    UiCommand::UpdateDirection { line, direction_id, next_passages, update_at },
                ),
            },
        },
    }
}

} // verus!
