//! The `/pprof/*` routes of the remote-profiling protocol.
//!
//! A handler does no work on the allocator itself. It is a function of the
//! request and of the replies gathered so far, and says what comes next:
//! an operation for the host to perform, or the finished response. The
//! host calls it again with the reply added, until the response is there.
//! `serve` holds that conversation for a host that can hand out a function
//! to call; a host that cannot, because it must not block, calls `router`
//! step by step.

use crate::control::{replies_view, Operation, OperationView, Reply, ReplyView};
use crate::error::ControlError;
use crate::response::{
    attachment_response, bad_request_response, error_response, ok_response, response_bad_request,
    response_err, response_ok, response_ok_binary, Response, ResponseView, TEXT_PLAIN,
};
pub use crate::symbol_table::SymbolTable;
use crate::symbol_table::{entry_view, floor_entry, translated, LoadMapping};
use crate::text::{
    address_value, decimal_digits, decimal_usize, find_byte, hex_digits, is_text,
    lemma_split_from, next_index_of, option_view, parse_address, parse_decimal_usize,
    push_decimal, push_hex, push_text, quote, quote_option, quoted, quoted_option, split,
    split_from,
};
use vstd::prelude::*;
use vstd::slice::*;
use vstd::string::*;
use vstd::utf8::*;

verus! {

/// The method of a request, as far as the routes tell methods apart.
#[derive(Debug, Clone, Copy, PartialEq, Eq, Structural)]
pub enum Method {
    Get,
    Post,
    Other,
}

/// A request: method, path, query and body.
#[derive(Debug, Clone, PartialEq, Eq)]
pub struct Request {
    pub method: Method,
    pub path: Vec<u8>,
    pub query: Option<Vec<u8>>,
    pub body: Vec<u8>,
}

/// The view of a `Request`: the same request over mathematical values.
pub struct RequestView {
    pub method: Method,
    pub path: Seq<u8>,
    pub query: Option<Seq<u8>>,
    pub body: Seq<u8>,
}

impl View for Request {
    type V = RequestView;

    open spec fn view(&self) -> RequestView {
        RequestView {
            method: self.method,
            path: self.path@,
            query: match self.query {
                Some(q) => Some(q@),
                None => None,
            },
            body: self.body@,
        }
    }
}

/// How the name of a file for a profile dump begins.
pub const DUMP_FILE_PREFIX: &'static str = "jemalloc.";

/// How the name of a file for a profile dump ends.
pub const DUMP_FILE_SUFFIX: &'static str = ".prof";

/// What comes next in answering a request.
#[derive(Debug, Clone, PartialEq, Eq)]
pub enum Step {
    /// The host performs this operation on the control channel and comes
    /// back with its reply.
    Call(Operation),
    /// The host creates a uniquely named file for a profile dump, its name
    /// beginning with `DUMP_FILE_PREFIX` and ending in `DUMP_FILE_SUFFIX`,
    /// and comes back with the file.
    CreateDumpFile,
    /// The response is finished.
    Respond(Response),
}

/// The view of a `Step`: the same step over mathematical values.
pub enum StepView {
    Call(OperationView),
    CreateDumpFile,
    Respond(ResponseView),
}

impl View for Step {
    type V = StepView;

    open spec fn view(&self) -> StepView {
        match self {
            Step::Call(operation) => StepView::Call(operation@),
            Step::CreateDumpFile => StepView::CreateDumpFile,
            Step::Respond(response) => StepView::Respond(response@),
        }
    }
}

/// The failure with the given message, as a step.
pub open spec fn fail_step(message: Seq<u8>) -> StepView {
    StepView::Respond(error_response(message))
}

/// The plain-text success with the given body, as a step.
pub open spec fn text_step(body: Seq<u8>) -> StepView {
    StepView::Respond(ok_response(body, TEXT_PLAIN@))
}

/// Ends a conversation with the failure of the given message.
fn fail(message: &str) -> (r: Step)
    ensures
        r@ == fail_step(message.spec_bytes()),
{
    let mut body: Vec<u8> = Vec::new();
    push_text(&mut body, message);
    assert(body@ =~= message.spec_bytes());
    Step::Respond(response_err(body))
}

/// Whether the reply says that the allocator was started with profiling.
pub open spec fn says_enabled(reply: ReplyView) -> bool {
    reply.flag() == Ok::<bool, ControlError>(true)
}

/// Tells whether the reply says that the allocator was started with
/// profiling.
fn reply_says_enabled(reply: &Reply) -> (r: bool)
    ensures
        r == says_enabled(reply@),
{
    match reply.flag() {
        Ok(enabled) => enabled,
        Err(_) => false,
    }
}

/// The text of a flag.
pub open spec fn flag_text(flag: bool) -> Seq<u8> {
    if flag {
        "true".spec_bytes()
    } else {
        "false".spec_bytes()
    }
}

/// The status line of the profiling configuration: the three control
/// points that were read, each under its name in the allocator's namespace,
/// with a colon before the value and commas between them.
pub open spec fn conf_status(enabled: bool, active: bool, sample: usize) -> Seq<u8> {
    "opt.prof:".spec_bytes() + flag_text(enabled) + ",prof.active:".spec_bytes() + flag_text(
        active,
    ) + ",prof.lg_sample:".spec_bytes() + decimal_digits(sample as nat) + "\r\n".spec_bytes()
}

/// Writes the text of a flag.
fn push_flag(out: &mut Vec<u8>, flag: bool)
    ensures
        final(out)@ == old(out)@ + flag_text(flag),
{
    if flag {
        push_text(out, "true");
    } else {
        push_text(out, "false");
    }
}

/// Writes the status line of the profiling configuration.
pub fn write_conf_status(enabled: bool, active: bool, sample: usize) -> (r: Vec<u8>)
    ensures
        r@ == conf_status(enabled, active, sample),
{
    let mut line: Vec<u8> = Vec::new();
    push_text(&mut line, "opt.prof:");
    push_flag(&mut line, enabled);
    push_text(&mut line, ",prof.active:");
    push_flag(&mut line, active);
    push_text(&mut line, ",prof.lg_sample:");
    push_decimal(&mut line, sample as u64);
    push_text(&mut line, "\r\n");
    assert(line@ =~= conf_status(enabled, active, sample));
    line
}

/// `GET /pprof/conf`: asks whether profiling is enabled, whether it is
/// active and for the sample interval, in this order, and reports the
/// three in one line. Without profiling there is nothing to report, and
/// each failure ends the conversation with its own message.
pub open spec fn get_conf_step(replies: Seq<ReplyView>) -> StepView {
    if replies.len() == 0 {
        StepView::Call(OperationView::IsProfilingEnabled)
    } else if !says_enabled(replies[0]) {
        fail_step("jemalloc profiling not enabled".spec_bytes())
    } else if replies.len() == 1 {
        StepView::Call(OperationView::IsActive)
    } else {
        match replies[1].flag() {
            Err(_) => fail_step("failed to read prof.active\r\n".spec_bytes()),
            Ok(active) => if replies.len() == 2 {
                StepView::Call(OperationView::SampleInterval)
            } else {
                match replies[2].number() {
                    Err(_) => fail_step("failed to read prof.lg_sample\r\n".spec_bytes()),
                    Ok(sample) => text_step(conf_status(true, active, sample)),
                }
            },
        }
    }
}

/// Handles `GET /pprof/conf`.
#[inline]
pub fn get_pprof_conf_handler(replies: &Vec<Reply>) -> (r: Step)
    ensures
        r@ == get_conf_step(replies_view(replies@)),
{
    if replies.len() == 0 {
        return Step::Call(Operation::IsProfilingEnabled);
    }
    if !reply_says_enabled(&replies[0]) {
        return fail("jemalloc profiling not enabled");
    }
    if replies.len() == 1 {
        return Step::Call(Operation::IsActive);
    }
    let active = match replies[1].flag() {
        Ok(active) => active,
        Err(_) => {
            return fail("failed to read prof.active\r\n");
        },
    };
    if replies.len() == 2 {
        return Step::Call(Operation::SampleInterval);
    }
    let sample = match replies[2].number() {
        Ok(sample) => sample,
        Err(_) => {
            return fail("failed to read prof.lg_sample\r\n");
        },
    };
    Step::Respond(response_ok(write_conf_status(true, active, sample), TEXT_PLAIN))
}

/// One setting of a configuration query: the name, and the value where
/// the setting has one. The value is what follows the first colon.
pub open spec fn conf_pair(piece: Seq<u8>) -> (Seq<u8>, Option<Seq<u8>>) {
    let colon = next_index_of(piece, 0x3a, 0);
    if 0 <= colon < piece.len() {
        (piece.subrange(0, colon), Some(piece.subrange(colon + 1, piece.len() as int)))
    } else {
        (piece, None)
    }
}

/// The settings of a configuration query, which are separated by commas.
/// Without a query there are none; an empty query is one setting with an
/// empty name.
pub open spec fn conf_pairs(query: Option<Seq<u8>>) -> Seq<(Seq<u8>, Option<Seq<u8>>)> {
    match query {
        Some(q) => pairs_of(split(q, 0x2c)),
        None => Seq::empty(),
    }
}

/// The settings that the pieces of a query are.
pub open spec fn pairs_of(pieces: Seq<Seq<u8>>) -> Seq<(Seq<u8>, Option<Seq<u8>>)> {
    pieces.map_values(|piece: Seq<u8>| conf_pair(piece))
}

/// The view of a setting.
pub open spec fn pair_view(pair: (Vec<u8>, Option<Vec<u8>>)) -> (Seq<u8>, Option<Seq<u8>>) {
    (pair.0@, option_view(pair.1))
}

/// The view of a list of settings.
pub open spec fn pairs_view(pairs: Seq<(Vec<u8>, Option<Vec<u8>>)>) -> Seq<
    (Seq<u8>, Option<Seq<u8>>),
> {
    pairs.map_values(|pair: (Vec<u8>, Option<Vec<u8>>)| pair_view(pair))
}

/// Reads one setting of a configuration query.
fn parse_conf_pair(piece: &[u8]) -> (r: (Vec<u8>, Option<Vec<u8>>))
    ensures
        pair_view(r) == conf_pair(piece@),
{
    let colon = find_byte(piece, 0x3a, 0);
    if colon < piece.len() {
        let name = slice_to_vec(slice_subrange(piece, 0, colon));
        let value = slice_to_vec(slice_subrange(piece, colon + 1, piece.len()));
        (name, Some(value))
    } else {
        (slice_to_vec(piece), None)
    }
}

/// Reads the settings of a configuration query.
pub fn parse_malloc_conf_query(query: Option<&[u8]>) -> (r: Vec<(Vec<u8>, Option<Vec<u8>>)>)
    ensures
        pairs_view(r@) == conf_pairs(
            match query {
                Some(q) => Some(q@),
                None => None,
            },
        ),
{
    let mut pairs: Vec<(Vec<u8>, Option<Vec<u8>>)> = Vec::new();
    let q = match query {
        Some(q) => q,
        None => {
            assert(pairs_view(pairs@) =~= Seq::<(Seq<u8>, Option<Seq<u8>>)>::empty());
            return pairs;
        },
    };
    let ghost pieces = split(q@, 0x2c);
    let ghost mut done: Seq<Seq<u8>> = Seq::empty();
    let mut pos: usize = 0;
    assert(pairs_view(pairs@) =~= pairs_of(done));
    loop
        invariant_except_break
            pos <= q.len(),
            pieces == done + split_from(q@, 0x2c, pos as int),
        invariant
            pieces == split(q@, 0x2c),
            pairs_view(pairs@) == pairs_of(done),
        ensures
            pieces == done,
        decreases q.len() - pos,
    {
        let end = find_byte(q, 0x2c, pos);
        let piece = slice_subrange(q, pos, end);
        proof {
            lemma_split_from(q@, 0x2c, pos as int);
        }
        let pair = parse_conf_pair(piece);
        let ghost before = pairs@;
        pairs.push(pair);
        proof {
            assert(pairs_view(before).len() == before.len());
            assert(pairs_of(done).len() == done.len());
            assert(pairs_of(done.push(piece@)).len() == done.len() + 1);
            assert forall|j: int| 0 <= j < pairs@.len() implies pairs_view(pairs@)[j] == pairs_of(
                done.push(piece@),
            )[j] by {
                if j < before.len() {
                    assert(pairs_view(before)[j] == pairs_of(done)[j]);
                }
            }
            assert(pairs_view(pairs@) =~= pairs_of(done.push(piece@)));
            if end < q.len() {
                assert(done.push(piece@) + split_from(q@, 0x2c, end + 1) =~= done + (seq![piece@]
                    + split_from(q@, 0x2c, end + 1)));
            } else {
                assert(done.push(piece@) =~= done + seq![piece@]);
            }
            done = done.push(piece@);
        }
        if end >= q.len() {
            break ;
        }
        pos = end + 1;
    }
    pairs
}

/// Why a setting asks nothing of the control channel.
#[derive(Debug, Clone, Copy, PartialEq, Eq, Structural)]
pub enum SettingFault {
    /// `prof.reset` without a value, or with one that is no number.
    InvalidReset,
    /// `prof.active` without a value.
    MissingActive,
    /// `prof.active` with a value that is neither `true` nor `false`.
    InvalidActive,
    /// A name that is not known.
    Unknown,
}

/// What a setting asks of the control channel, or why it asks nothing:
/// `prof.reset` takes a decimal number and resets with it as the new sample
/// interval; `prof.active` takes `true` or `false` and switches sampling;
/// no other name is known.
pub open spec fn setting_operation(name: Seq<u8>, value: Option<Seq<u8>>) -> Result<
    OperationView,
    SettingFault,
> {
    if name == "prof.reset".spec_bytes() {
        match value {
            Some(v) => match decimal_usize(v) {
                Some(sample) => Ok(OperationView::Reset(Some(sample))),
                None => Err(SettingFault::InvalidReset),
            },
            None => Err(SettingFault::InvalidReset),
        }
    } else if name == "prof.active".spec_bytes() {
        match value {
            Some(v) => if v == "true".spec_bytes() {
                Ok(OperationView::SetActive(true))
            } else if v == "false".spec_bytes() {
                Ok(OperationView::SetActive(false))
            } else {
                Err(SettingFault::InvalidActive)
            },
            None => Err(SettingFault::MissingActive),
        }
    } else {
        Err(SettingFault::Unknown)
    }
}

/// Says what a setting asks of the control channel, or why it asks
/// nothing.
pub fn read_setting(name: &[u8], value: &Option<Vec<u8>>) -> (r: Result<Operation, SettingFault>)
    ensures
        match r {
            Ok(operation) => setting_operation(name@, option_view(*value)) == Ok::<
                OperationView,
                SettingFault,
            >(operation@),
            Err(fault) => setting_operation(name@, option_view(*value)) == Err::<
                OperationView,
                SettingFault,
            >(fault),
        },
{
    if is_text(name, "prof.reset") {
        match value {
            Some(v) => match parse_decimal_usize(v.as_slice()) {
                Some(sample) => Ok(Operation::Reset(Some(sample))),
                None => Err(SettingFault::InvalidReset),
            },
            None => Err(SettingFault::InvalidReset),
        }
    } else if is_text(name, "prof.active") {
        match value {
            Some(v) => {
                if is_text(v.as_slice(), "true") {
                    Ok(Operation::SetActive(true))
                } else if is_text(v.as_slice(), "false") {
                    Ok(Operation::SetActive(false))
                } else {
                    Err(SettingFault::InvalidActive)
                }
            },
            None => Err(SettingFault::MissingActive),
        }
    } else {
        Err(SettingFault::Unknown)
    }
}

/// The message of a setting that asks nothing. `shown_value` is the value
/// as a message shows it, and `shown` is the same for the value that may be
/// missing.
pub open spec fn fault_message(
    fault: SettingFault,
    name: Seq<u8>,
    shown_value: Seq<u8>,
    shown: Seq<u8>,
) -> Seq<u8> {
    match fault {
        SettingFault::InvalidReset => "invalid prof.reset value: ".spec_bytes() + shown
            + "\r\n".spec_bytes(),
        SettingFault::MissingActive => "prof.active needs value\r\n".spec_bytes(),
        SettingFault::InvalidActive => "invalid prof.active value: ".spec_bytes() + shown_value
            + "\r\n".spec_bytes(),
        SettingFault::Unknown => name + "=".spec_bytes() + shown + " unknown\r\n".spec_bytes(),
    }
}

/// Writes the message of a setting that asks nothing.
pub fn write_fault_message(fault: SettingFault, name: &[u8], shown_value: &[u8], shown: &[u8]) -> (r:
    Vec<u8>)
    ensures
        r@ == fault_message(fault, name@, shown_value@, shown@),
{
    let mut message: Vec<u8> = Vec::new();
    match fault {
        SettingFault::InvalidReset => {
            push_text(&mut message, "invalid prof.reset value: ");
            message.extend_from_slice(shown);
            push_text(&mut message, "\r\n");
        },
        SettingFault::MissingActive => {
            push_text(&mut message, "prof.active needs value\r\n");
        },
        SettingFault::InvalidActive => {
            push_text(&mut message, "invalid prof.active value: ");
            message.extend_from_slice(shown_value);
            push_text(&mut message, "\r\n");
        },
        SettingFault::Unknown => {
            message.extend_from_slice(name);
            push_text(&mut message, "=");
            message.extend_from_slice(shown);
            push_text(&mut message, " unknown\r\n");
        },
    }
    assert(message@ =~= fault_message(fault, name@, shown_value@, shown@));
    message
}

/// The message for a setting that the allocator refused. `shown` is the
/// value that may be missing, as a message shows it.
pub open spec fn failed_setting_message(name: Seq<u8>, shown: Seq<u8>, error: ControlError) -> Seq<
    u8,
> {
    name + "=".spec_bytes() + shown + " failed: ".spec_bytes() + error.message_spec()
        + "\r\n".spec_bytes()
}

/// Writes the message for a setting that the allocator refused.
pub fn write_failed_setting_message(name: &[u8], shown: &[u8], error: ControlError) -> (r: Vec<u8>)
    ensures
        r@ == failed_setting_message(name@, shown@, error),
{
    let mut message: Vec<u8> = Vec::new();
    message.extend_from_slice(name);
    push_text(&mut message, "=");
    message.extend_from_slice(shown);
    push_text(&mut message, " failed: ");
    error.push_message(&mut message);
    push_text(&mut message, "\r\n");
    assert(message@ =~= failed_setting_message(name@, shown@, error));
    message
}

/// The value of a setting as a message shows it; nothing for a missing
/// value.
pub open spec fn shown_value(value: Option<Seq<u8>>) -> Seq<u8> {
    match value {
        Some(v) => quoted(v),
        None => Seq::empty(),
    }
}

/// What a setting asks of the control channel, or the message that says
/// why it asks nothing.
pub open spec fn conf_operation(name: Seq<u8>, value: Option<Seq<u8>>) -> Result<
    OperationView,
    Seq<u8>,
> {
    match setting_operation(name, value) {
        Ok(operation) => Ok(operation),
        Err(fault) => Err(fault_message(fault, name, shown_value(value), quoted_option(value))),
    }
}

/// Says what a setting asks of the control channel, or why it asks
/// nothing, in words.
pub fn conf_command(name: &[u8], value: &Option<Vec<u8>>) -> (r: Result<Operation, Vec<u8>>)
    ensures
        match r {
            Ok(operation) => conf_operation(name@, option_view(*value)) == Ok::<
                OperationView,
                Seq<u8>,
            >(operation@),
            Err(message) => conf_operation(name@, option_view(*value)) == Err::<
                OperationView,
                Seq<u8>,
            >(message@),
        },
{
    match read_setting(name, value) {
        Ok(operation) => Ok(operation),
        Err(fault) => {
            let shown_value: Vec<u8> = match value {
                Some(v) => quote(v.as_slice()),
                None => Vec::new(),
            };
            let shown = quote_option(value);
            Err(write_fault_message(fault, name, shown_value.as_slice(), shown.as_slice()))
        },
    }
}

/// The settings from position `i` on, against the replies: the reply to
/// setting `i` is reply `i + 1`. A setting that asks nothing, or that the
/// allocator refuses, ends the conversation with its message, and the
/// settings behind it are not applied. When all went through the answer
/// is `OK`.
pub open spec fn apply_settings(
    pairs: Seq<(Seq<u8>, Option<Seq<u8>>)>,
    replies: Seq<ReplyView>,
    i: int,
) -> StepView
    decreases pairs.len() - i,
{
    if i < 0 || i >= pairs.len() {
        text_step("OK\r\n".spec_bytes())
    } else {
        match conf_operation(pairs[i].0, pairs[i].1) {
            Err(message) => fail_step(message),
            Ok(operation) => if replies.len() <= i + 1 {
                StepView::Call(operation)
            } else {
                match replies[i + 1].done() {
                    Err(error) => fail_step(
                        failed_setting_message(pairs[i].0, quoted_option(pairs[i].1), error),
                    ),
                    Ok(()) => apply_settings(pairs, replies, i + 1),
                }
            },
        }
    }
}

/// `POST /pprof/conf`: asks whether profiling is enabled, then applies the
/// settings of the query one after the other.
pub open spec fn post_conf_step(query: Option<Seq<u8>>, replies: Seq<ReplyView>) -> StepView {
    if replies.len() == 0 {
        StepView::Call(OperationView::IsProfilingEnabled)
    } else if !says_enabled(replies[0]) {
        fail_step("jemalloc profiling not enabled\r\n".spec_bytes())
    } else {
        apply_settings(conf_pairs(query), replies, 0)
    }
}

/// Handles `POST /pprof/conf`.
#[inline]
pub fn post_pprof_conf_handler(query: Option<&[u8]>, replies: &Vec<Reply>) -> (r: Step)
    ensures
        r@ == post_conf_step(
            match query {
                Some(q) => Some(q@),
                None => None,
            },
            replies_view(replies@),
        ),
{
    if replies.len() == 0 {
        return Step::Call(Operation::IsProfilingEnabled);
    }
    if !reply_says_enabled(&replies[0]) {
        return fail("jemalloc profiling not enabled\r\n");
    }
    let pairs = parse_malloc_conf_query(query);
    let ghost settings = pairs_view(pairs@);
    let ghost answers = replies_view(replies@);
    let mut i: usize = 0;
    while i < pairs.len()
        invariant
            i <= pairs.len(),
            settings == pairs_view(pairs@),
            answers == replies_view(replies@),
            replies.len() > 0,
            post_conf_step(
                match query {
                    Some(q) => Some(q@),
                    None => None,
                },
                answers,
            ) == apply_settings(settings, answers, i as int),
        decreases pairs.len() - i,
    {
        assert(settings[i as int] == pair_view(pairs@[i as int]));
        let operation = match conf_command(pairs[i].0.as_slice(), &pairs[i].1) {
            Ok(operation) => operation,
            Err(message) => {
                return Step::Respond(response_err(message));
            },
        };
        if replies.len() <= i + 1 {
            return Step::Call(operation);
        }
        assert(answers[i + 1] == replies@[i + 1]@);
        match replies[i + 1].done() {
            Ok(()) => {},
            Err(error) => {
                let shown = quote_option(&pairs[i].1);
                let message = write_failed_setting_message(
                    pairs[i].0.as_slice(),
                    shown.as_slice(),
                    error,
                );
                return Step::Respond(response_err(message));
            },
        }
        i += 1;
    }
    let mut body: Vec<u8> = Vec::new();
    push_text(&mut body, "OK\r\n");
    assert(body@ =~= "OK\r\n".spec_bytes());
    Step::Respond(response_ok(body, TEXT_PLAIN))
}

/// `GET /pprof/heap`: asks whether profiling is enabled, has a file made
/// for the dump, has the profile dumped to it, and sends the profile as an
/// attachment under the name of the file.
pub open spec fn get_heap_step(replies: Seq<ReplyView>) -> StepView {
    if replies.len() == 0 {
        StepView::Call(OperationView::IsProfilingEnabled)
    } else if !says_enabled(replies[0]) {
        fail_step("jemalloc profiling not enabled\r\n".spec_bytes())
    } else if replies.len() == 1 {
        StepView::CreateDumpFile
    } else {
        match replies[1].file() {
            Err(_) => fail_step("cannot create temporary file for profile dump\r\n".spec_bytes()),
            Ok((path, name)) => if replies.len() == 2 {
                StepView::Call(OperationView::Dump(Some(path)))
            } else {
                match replies[2].bytes() {
                    Err(_) => fail_step("failed to dump profile\r\n".spec_bytes()),
                    Ok(profile) => StepView::Respond(attachment_response(profile, name)),
                }
            },
        }
    }
}

/// Handles `GET /pprof/heap`.
#[inline]
pub fn get_pprof_heap_handler(replies: &Vec<Reply>) -> (r: Step)
    ensures
        r@ == get_heap_step(replies_view(replies@)),
{
    if replies.len() == 0 {
        return Step::Call(Operation::IsProfilingEnabled);
    }
    if !reply_says_enabled(&replies[0]) {
        return fail("jemalloc profiling not enabled\r\n");
    }
    if replies.len() == 1 {
        return Step::CreateDumpFile;
    }
    let (path, name) = match replies[1].file() {
        Ok(file) => file,
        Err(_) => {
            return fail("cannot create temporary file for profile dump\r\n");
        },
    };
    if replies.len() == 2 {
        return Step::Call(Operation::Dump(Some(path.clone())));
    }
    match replies[2].bytes() {
        Ok(profile) => {
            let body = slice_to_vec(profile.as_slice());
            Step::Respond(response_ok_binary(body, name.as_str()))
        },
        Err(_) => fail("failed to dump profile\r\n"),
    }
}

/// The command line as the response shows it: each argument on a line of
/// its own.
pub open spec fn cmdline_text(args: Seq<Seq<char>>) -> Seq<u8>
    decreases args.len(),
{
    if args.len() == 0 {
        Seq::empty()
    } else {
        cmdline_text(args.drop_last()) + encode_utf8(args.last()) + "\r\n".spec_bytes()
    }
}

/// The view of the arguments of the process.
pub open spec fn args_view(args: Seq<String>) -> Seq<Seq<char>> {
    args.map_values(|arg: String| arg@)
}

/// Handles `GET /pprof/cmdline`: responds with the arguments that the
/// process was started with, one per line.
#[inline]
pub fn get_pprof_cmdline_handler(args: &Vec<String>) -> (r: Response)
    ensures
        r@ == ok_response(cmdline_text(args_view(args@)), TEXT_PLAIN@),
{
    let mut body: Vec<u8> = Vec::new();
    let mut i: usize = 0;
    while i < args.len()
        invariant
            i <= args.len(),
            body@ == cmdline_text(args_view(args@).take(i as int)),
        decreases args.len() - i,
    {
        let ghost before = body@;
        push_text(&mut body, args[i].as_str());
        push_text(&mut body, "\r\n");
        proof {
            let shown = args_view(args@);
            assert(shown.take(i + 1).drop_last() =~= shown.take(i as int));
            assert(shown.take(i + 1).last() == args@[i as int]@);
            assert(body@ =~= before + encode_utf8(args@[i as int]@) + "\r\n".spec_bytes());
        }
        i += 1;
    }
    assert(args_view(args@).take(i as int) =~= args_view(args@));
    response_ok(body, TEXT_PLAIN)
}

/// The line that reports the number of known symbols.
pub open spec fn symbol_count_text(count: nat) -> Seq<u8> {
    "num_symbols: ".spec_bytes() + decimal_digits(count) + "\r\n".spec_bytes()
}

/// Handles `GET /pprof/symbol`: responds with the number of symbols of the
/// table.
#[inline]
pub fn get_pprof_symbol_handler(sym: &SymbolTable) -> (r: Response)
    ensures
        r@ == ok_response(symbol_count_text(sym@.len()), TEXT_PLAIN@),
{
    let mut body: Vec<u8> = Vec::new();
    push_text(&mut body, "num_symbols: ");
    push_decimal(&mut body, sym.len() as u64);
    push_text(&mut body, "\r\n");
    assert(body@ =~= symbol_count_text(sym@.len()));
    response_ok(body, TEXT_PLAIN)
}

/// The line that resolves `addr` to `name`: the address as it was asked
/// for, in hexadecimal behind `0x`, a tab, and the name.
pub open spec fn symbol_line(addr: u64, name: Seq<char>) -> Seq<u8> {
    "0x".spec_bytes() + hex_digits(addr as nat) + seq![0x09u8] + encode_utf8(name)
        + "\r\n".spec_bytes()
}

/// What one piece of a symbol request contributes to the response: the
/// line of its address when the piece is an address and the table has a
/// symbol for it, and nothing otherwise.
pub open spec fn resolved_piece(
    table: Seq<(u64, Seq<char>)>,
    mapping: Option<LoadMapping>,
    piece: Seq<u8>,
) -> Seq<u8> {
    match address_value(piece) {
        Some(addr) => match floor_entry(table, translated(mapping, addr)) {
            Some(entry) => symbol_line(addr, entry.1),
            None => Seq::empty(),
        },
        None => Seq::empty(),
    }
}

/// The lines for the pieces of a symbol request, in the order of the
/// pieces.
pub open spec fn resolved_lines(
    table: Seq<(u64, Seq<char>)>,
    mapping: Option<LoadMapping>,
    pieces: Seq<Seq<u8>>,
) -> Seq<u8>
    decreases pieces.len(),
{
    if pieces.len() == 0 {
        Seq::empty()
    } else {
        resolved_lines(table, mapping, pieces.drop_last()) + resolved_piece(
            table,
            mapping,
            pieces.last(),
        )
    }
}

/// Handles `POST /pprof/symbol`: the body holds addresses joined by `+`;
/// the response holds one line for each address that the table resolves.
#[inline]
pub fn post_pprof_symbol_handler(sym: &SymbolTable, body: &[u8]) -> (r: Response)
    ensures
        r@ == ok_response(
            resolved_lines(sym@, sym.load_mapping(), split(body@, 0x2b)),
            TEXT_PLAIN@,
        ),
{
    let mut out: Vec<u8> = Vec::new();
    let ghost pieces = split(body@, 0x2b);
    let ghost mut done: Seq<Seq<u8>> = Seq::empty();
    let mut pos: usize = 0;
    loop
        invariant_except_break
            pos <= body.len(),
            pieces == done + split_from(body@, 0x2b, pos as int),
        invariant
            pieces == split(body@, 0x2b),
            out@ == resolved_lines(sym@, sym.load_mapping(), done),
        ensures
            pieces == done,
        decreases body.len() - pos,
    {
        let end = find_byte(body, 0x2b, pos);
        let piece = slice_subrange(body, pos, end);
        proof {
            lemma_split_from(body@, 0x2b, pos as int);
            assert(done.push(piece@).drop_last() =~= done);
        }
        let ghost before = out@;
        match parse_address(piece) {
            Some(addr) => {
                match sym.lookup_symbol(addr) {
                    Some(entry) => {
                        push_text(&mut out, "0x");
                        push_hex(&mut out, addr);
                        out.push(0x09);
                        push_text(&mut out, entry.1.as_str());
                        push_text(&mut out, "\r\n");
                        assert(out@ =~= before + symbol_line(addr, entry_view(*entry).1));
                    },
                    None => {
                        assert(out@ =~= before + Seq::<u8>::empty());
                    },
                }
            },
            None => {
                assert(out@ =~= before + Seq::<u8>::empty());
            },
        }
        proof {
            if end < body.len() {
                assert(done.push(piece@) + split_from(body@, 0x2b, end + 1) =~= done + (
                seq![piece@] + split_from(body@, 0x2b, end + 1)));
            } else {
                assert(done.push(piece@) =~= done + seq![piece@]);
            }
            done = done.push(piece@);
        }
        if end >= body.len() {
            break ;
        }
        pos = end + 1;
    }
    response_ok(out, TEXT_PLAIN)
}

/// The message for a statistics report that could not be had.
pub open spec fn failed_stats_message(error: ControlError) -> Seq<u8> {
    "failed to print stats: ".spec_bytes() + error.message_spec() + "\r\n".spec_bytes()
}

/// `GET /pprof/stats`: asks for the statistics report and sends it as it
/// is.
pub open spec fn get_stats_step(replies: Seq<ReplyView>) -> StepView {
    if replies.len() == 0 {
        StepView::Call(OperationView::Stats)
    } else {
        match replies[0].bytes() {
            Ok(report) => text_step(report),
            Err(error) => fail_step(failed_stats_message(error)),
        }
    }
}

/// Handles `GET /pprof/stats`.
#[inline]
pub fn get_pprof_stats_handler(replies: &Vec<Reply>) -> (r: Step)
    ensures
        r@ == get_stats_step(replies_view(replies@)),
{
    if replies.len() == 0 {
        return Step::Call(Operation::Stats);
    }
    match replies[0].bytes() {
        Ok(report) => {
            let body = slice_to_vec(report.as_slice());
            Step::Respond(response_ok(body, TEXT_PLAIN))
        },
        Err(error) => {
            let mut message: Vec<u8> = Vec::new();
            push_text(&mut message, "failed to print stats: ");
            error.push_message(&mut message);
            push_text(&mut message, "\r\n");
            assert(message@ =~= failed_stats_message(error));
            Step::Respond(response_err(message))
        },
    }
}

/// The routes.
#[derive(Debug, Clone, Copy, PartialEq, Eq, Structural)]
pub enum Route {
    GetConf,
    PostConf,
    GetHeap,
    GetCmdline,
    GetSymbol,
    PostSymbol,
    GetStats,
    /// No route takes the request.
    Unknown,
}

/// The route of a method and a path.
pub open spec fn route_of(method: Method, path: Seq<u8>) -> Route {
    if method == Method::Get && path == "/pprof/conf".spec_bytes() {
        Route::GetConf
    } else if method == Method::Post && path == "/pprof/conf".spec_bytes() {
        Route::PostConf
    } else if method == Method::Get && path == "/pprof/heap".spec_bytes() {
        Route::GetHeap
    } else if method == Method::Get && path == "/pprof/cmdline".spec_bytes() {
        Route::GetCmdline
    } else if method == Method::Get && path == "/pprof/symbol".spec_bytes() {
        Route::GetSymbol
    } else if method == Method::Post && path == "/pprof/symbol".spec_bytes() {
        Route::PostSymbol
    } else if method == Method::Get && path == "/pprof/stats".spec_bytes() {
        Route::GetStats
    } else {
        Route::Unknown
    }
}

/// Finds the route of a method and a path.
pub fn find_route(method: Method, path: &[u8]) -> (r: Route)
    ensures
        r == route_of(method, path@),
{
    match method {
        Method::Get => {
            if is_text(path, "/pprof/conf") {
                Route::GetConf
            } else if is_text(path, "/pprof/heap") {
                Route::GetHeap
            } else if is_text(path, "/pprof/cmdline") {
                Route::GetCmdline
            } else if is_text(path, "/pprof/symbol") {
                Route::GetSymbol
            } else if is_text(path, "/pprof/stats") {
                Route::GetStats
            } else {
                Route::Unknown
            }
        },
        Method::Post => {
            if is_text(path, "/pprof/conf") {
                Route::PostConf
            } else if is_text(path, "/pprof/symbol") {
                Route::PostSymbol
            } else {
                Route::Unknown
            }
        },
        Method::Other => Route::Unknown,
    }
}

/// What comes next for a request, given the replies so far: the step of
/// the handler of its route, and a fixed failure where it has no route.
pub open spec fn router_step(
    table: Seq<(u64, Seq<char>)>,
    mapping: Option<LoadMapping>,
    args: Seq<Seq<char>>,
    request: RequestView,
    replies: Seq<ReplyView>,
) -> StepView {
    match route_of(request.method, request.path) {
        Route::GetConf => get_conf_step(replies),
        Route::PostConf => post_conf_step(request.query, replies),
        Route::GetHeap => get_heap_step(replies),
        Route::GetCmdline => text_step(cmdline_text(args)),
        Route::GetSymbol => text_step(symbol_count_text(table.len())),
        Route::PostSymbol => text_step(
            resolved_lines(table, mapping, split(request.body, 0x2b)),
        ),
        Route::GetStats => get_stats_step(replies),
        Route::Unknown => StepView::Respond(bad_request_response()),
    }
}

/// Dispatches a request by method and path. `args` are the arguments that
/// the process was started with; `replies` are the replies of the host to
/// the steps that earlier calls for this request asked for, oldest first.
#[inline]
pub fn router(sym: &SymbolTable, args: &Vec<String>, req: &Request, replies: &Vec<Reply>) -> (r:
    Step)
    ensures
        r@ == router_step(
            sym@,
            sym.load_mapping(),
            args_view(args@),
            req@,
            replies_view(replies@),
        ),
{
    match find_route(req.method, req.path.as_slice()) {
        Route::GetConf => get_pprof_conf_handler(replies),
        Route::PostConf => {
            let query: Option<&[u8]> = match &req.query {
                Some(q) => Some(q.as_slice()),
                None => None,
            };
            post_pprof_conf_handler(query, replies)
        },
        Route::GetHeap => get_pprof_heap_handler(replies),
        Route::GetCmdline => Step::Respond(get_pprof_cmdline_handler(args)),
        Route::GetSymbol => Step::Respond(get_pprof_symbol_handler(sym)),
        Route::PostSymbol => Step::Respond(post_pprof_symbol_handler(sym, req.body.as_slice())),
        Route::GetStats => get_pprof_stats_handler(replies),
        Route::Unknown => Step::Respond(response_bad_request()),
    }
}

/// Whether reply `i` of a conversation about `request` was asked for and
/// given: the replies before it led to the step `step`, which is not yet
/// the response, and `host` gave `reply` to it.
pub open spec fn asked_and_given<H: Fn(&Step) -> Reply>(
    table: Seq<(u64, Seq<char>)>,
    mapping: Option<LoadMapping>,
    args: Seq<Seq<char>>,
    request: RequestView,
    host: H,
    earlier: Seq<ReplyView>,
    step: Step,
    reply: Reply,
) -> bool {
    &&& step@ == router_step(table, mapping, args, request, earlier)
    &&& !(step@ is Respond)
    &&& call_ensures(host, (&step,), reply)
}

/// Whether `steps` and `replies` are a conversation between the routes and
/// `host` about `request`: every reply was asked for and given.
pub open spec fn is_conversation<H: Fn(&Step) -> Reply>(
    table: Seq<(u64, Seq<char>)>,
    mapping: Option<LoadMapping>,
    args: Seq<Seq<char>>,
    request: RequestView,
    host: H,
    steps: Seq<Step>,
    replies: Seq<Reply>,
) -> bool {
    &&& steps.len() == replies.len()
    &&& forall|i: int|
        0 <= i < replies.len() ==> asked_and_given(
            table,
            mapping,
            args,
            request,
            host,
            replies_view(replies).take(i),
            #[trigger] steps[i],
            replies[i],
        )
}

/// A conversation stays one when a reply that was asked for and given is
/// added to it.
proof fn lemma_conversation_goes_on<H: Fn(&Step) -> Reply>(
    table: Seq<(u64, Seq<char>)>,
    mapping: Option<LoadMapping>,
    args: Seq<Seq<char>>,
    request: RequestView,
    host: H,
    steps: Seq<Step>,
    replies: Seq<Reply>,
    step: Step,
    reply: Reply,
)
    requires
        is_conversation(table, mapping, args, request, host, steps, replies),
        asked_and_given(table, mapping, args, request, host, replies_view(replies), step, reply),
    ensures
        is_conversation(
            table,
            mapping,
            args,
            request,
            host,
            steps.push(step),
            replies.push(reply),
        ),
{
    let longer = replies.push(reply);
    assert forall|i: int| 0 <= i < longer.len() implies asked_and_given(
        table,
        mapping,
        args,
        request,
        host,
        replies_view(longer).take(i),
        #[trigger] steps.push(step)[i],
        longer[i],
    ) by {
        if i < replies.len() {
            assert(replies_view(longer).take(i) =~= replies_view(replies).take(i));
            assert(steps.push(step)[i] == steps[i]);
        } else {
            assert(replies_view(longer).take(i) =~= replies_view(replies));
        }
    }
}

/// Answers a request with the help of the host: `host` is called with each
/// step that is not the response, performs it and hands back its reply.
/// The conversation always comes to an end, after no more calls of `host`
/// than the request can need, and the response is that of `router` for the
/// replies that `host` gave, each of them to the step that the replies
/// before it led to.
pub fn serve<H: Fn(&Step) -> Reply>(
    sym: &SymbolTable,
    args: &Vec<String>,
    req: &Request,
    host: H,
) -> (r: Response)
    requires
        forall|step: &Step| !(step@ is Respond) ==> call_requires(host, (step,)),
    ensures
        exists|steps: Seq<Step>, replies: Seq<Reply>|
            {
                &&& #[trigger] is_conversation(
                    sym@,
                    sym.load_mapping(),
                    args_view(args@),
                    req@,
                    host,
                    steps,
                    replies,
                )
                &&& replies.len() <= replies_needed(req@)
                &&& router_step(
                    sym@,
                    sym.load_mapping(),
                    args_view(args@),
                    req@,
                    replies_view(replies),
                ) == StepView::Respond(r@)
            },
{
    let mut replies: Vec<Reply> = Vec::new();
    let ghost mut steps: Seq<Step> = Seq::empty();
    loop
        invariant
            forall|step: &Step| !(step@ is Respond) ==> call_requires(host, (step,)),
            replies@.len() <= replies_needed(req@),
            is_conversation(
                sym@,
                sym.load_mapping(),
                args_view(args@),
                req@,
                host,
                steps,
                replies@,
            ),
        decreases replies_needed(req@) - replies@.len(),
    {
        let step = router(sym, args, req, &replies);
        match step {
            Step::Respond(response) => {
                return response;
            },
            _ => {},
        }
        proof {
            if replies@.len() >= replies_needed(req@) {
                lemma_conversation_ends(
                    sym@,
                    sym.load_mapping(),
                    args_view(args@),
                    req@,
                    replies_view(replies@),
                );
            }
        }
        let reply = host(&step);
        proof {
            lemma_conversation_goes_on(
                sym@,
                sym.load_mapping(),
                args_view(args@),
                req@,
                host,
                steps,
                replies@,
                step,
                reply,
            );
            steps = steps.push(step);
        }
        replies.push(reply);
    }
}

/// Texts that differ have bytes that differ.
pub proof fn lemma_texts_differ(a: &str, b: &str)
    requires
        a@ != b@,
    ensures
        a.spec_bytes() != b.spec_bytes(),
{
    encode_utf8_decode_utf8(a@);
    encode_utf8_decode_utf8(b@);
}

/// A request for the profiling configuration or for a heap profile begins
/// with the question whether profiling is enabled, whatever else it holds.
pub proof fn lemma_profiling_is_asked_first(
    table: Seq<(u64, Seq<char>)>,
    mapping: Option<LoadMapping>,
    args: Seq<Seq<char>>,
    request: RequestView,
)
    requires
        route_of(request.method, request.path) == Route::GetConf || route_of(
            request.method,
            request.path,
        ) == Route::PostConf || route_of(request.method, request.path) == Route::GetHeap,
    ensures
        router_step(table, mapping, args, request, Seq::empty()) == StepView::Call(
            OperationView::IsProfilingEnabled,
        ),
{
}

/// The guard of disabled profiling: when the answer to the first question
/// is anything but "enabled", and `false` is such an answer, a request for
/// the profiling configuration or for a heap profile fails with status 400
/// and the message that profiling is not enabled, whatever its query and
/// body hold and whatever replies follow. Nothing is asked of the allocator
/// after that answer.
pub proof fn lemma_disabled_profiling_guard(
    table: Seq<(u64, Seq<char>)>,
    mapping: Option<LoadMapping>,
    args: Seq<Seq<char>>,
    request: RequestView,
    replies: Seq<ReplyView>,
)
    requires
        (request.method == Method::Get || request.method == Method::Post) && request.path
            == "/pprof/conf".spec_bytes() || request.method == Method::Get && request.path
            == "/pprof/heap".spec_bytes(),
        replies.len() > 0,
        !says_enabled(replies[0]),
    ensures
        !says_enabled(ReplyView::Flag(false)),
        router_step(table, mapping, args, request, replies) matches StepView::Respond(response)
            && response.status == 400 && (response.body
            == "jemalloc profiling not enabled".spec_bytes() || response.body
            == "jemalloc profiling not enabled\r\n".spec_bytes()),
{
    reveal_strlit("/pprof/conf");
    reveal_strlit("/pprof/heap");
    assert("/pprof/conf"@[7] != "/pprof/heap"@[7]);
    lemma_texts_differ("/pprof/conf", "/pprof/heap");
}

/// A setting with a name that is not known is refused, and the message
/// begins with the name.
pub proof fn lemma_unknown_setting(name: Seq<u8>, value: Option<Seq<u8>>)
    requires
        name != "prof.reset".spec_bytes(),
        name != "prof.active".spec_bytes(),
    ensures
        setting_operation(name, value) == Err::<OperationView, SettingFault>(
            SettingFault::Unknown,
        ),
        conf_operation(name, value) matches Err(message) && message.len() >= name.len()
            && message.subrange(0, name.len() as int) == name,
{
    let message = fault_message(
        SettingFault::Unknown,
        name,
        shown_value(value),
        quoted_option(value),
    );
    assert(message.subrange(0, name.len() as int) =~= name);
}

/// With profiling enabled, a configuration request whose first setting has
/// an unknown name fails with status 400 and the message of that setting,
/// and asks nothing more of the allocator.
pub proof fn lemma_unknown_first_setting(query: Seq<u8>, replies: Seq<ReplyView>)
    requires
        replies.len() > 0,
        says_enabled(replies[0]),
        conf_pairs(Some(query))[0].0 != "prof.reset".spec_bytes(),
        conf_pairs(Some(query))[0].0 != "prof.active".spec_bytes(),
    ensures
        conf_pairs(Some(query)).len() > 0,
        post_conf_step(Some(query), replies) matches StepView::Respond(response)
            && response.status == 400 && response.body.len() >= conf_pairs(Some(query))[0].0.len()
            && response.body.subrange(0, conf_pairs(Some(query))[0].0.len() as int)
            == conf_pairs(Some(query))[0].0,
{
    lemma_split_from(query, 0x2c, 0);
    let pairs = conf_pairs(Some(query));
    assert(pairs.len() == split(query, 0x2c).len());
    lemma_unknown_setting(pairs[0].0, pairs[0].1);
}

/// How many replies a request can need at most: three for the
/// configuration status and for a heap profile, one for the statistics,
/// one and one for each setting for a configuration update, none for the
/// rest.
pub open spec fn replies_needed(request: RequestView) -> nat {
    match route_of(request.method, request.path) {
        Route::GetConf => 3,
        Route::PostConf => 1 + conf_pairs(request.query).len(),
        Route::GetHeap => 3,
        Route::GetStats => 1,
        _ => 0,
    }
}

/// With a reply for the first question and one for each setting, the
/// settings have all been dealt with.
proof fn lemma_settings_end(
    pairs: Seq<(Seq<u8>, Option<Seq<u8>>)>,
    replies: Seq<ReplyView>,
    i: int,
)
    requires
        0 <= i,
        replies.len() > pairs.len(),
    ensures
        apply_settings(pairs, replies, i) is Respond,
    decreases pairs.len() - i,
{
    if i < pairs.len() {
        lemma_settings_end(pairs, replies, i + 1);
    }
}

/// Every conversation ends: once the host has given as many replies as the
/// request can need, the step is the response.
pub proof fn lemma_conversation_ends(
    table: Seq<(u64, Seq<char>)>,
    mapping: Option<LoadMapping>,
    args: Seq<Seq<char>>,
    request: RequestView,
    replies: Seq<ReplyView>,
)
    requires
        replies.len() >= replies_needed(request),
    ensures
        router_step(table, mapping, args, request, replies) is Respond,
{
    if route_of(request.method, request.path) == Route::PostConf {
        lemma_settings_end(conf_pairs(request.query), replies, 0);
    }
}

/// The table of the routes: each of the seven pairs of method and path has
/// its own route, and a method that is neither GET nor POST has none.
pub proof fn lemma_route_table(path: Seq<u8>)
    ensures
        route_of(Method::Get, "/pprof/conf".spec_bytes()) == Route::GetConf,
        route_of(Method::Post, "/pprof/conf".spec_bytes()) == Route::PostConf,
        route_of(Method::Get, "/pprof/heap".spec_bytes()) == Route::GetHeap,
        route_of(Method::Get, "/pprof/cmdline".spec_bytes()) == Route::GetCmdline,
        route_of(Method::Get, "/pprof/symbol".spec_bytes()) == Route::GetSymbol,
        route_of(Method::Post, "/pprof/symbol".spec_bytes()) == Route::PostSymbol,
        route_of(Method::Get, "/pprof/stats".spec_bytes()) == Route::GetStats,
        route_of(Method::Post, "/pprof/heap".spec_bytes()) == Route::Unknown,
        route_of(Method::Post, "/pprof/cmdline".spec_bytes()) == Route::Unknown,
        route_of(Method::Post, "/pprof/stats".spec_bytes()) == Route::Unknown,
        route_of(Method::Other, path) == Route::Unknown,
{
    reveal_strlit("/pprof/conf");
    reveal_strlit("/pprof/heap");
    reveal_strlit("/pprof/cmdline");
    reveal_strlit("/pprof/symbol");
    reveal_strlit("/pprof/stats");
    assert("/pprof/conf"@[7] != "/pprof/heap"@[7]);
    assert("/pprof/conf"@.len() != "/pprof/cmdline"@.len());
    assert("/pprof/conf"@.len() != "/pprof/symbol"@.len());
    assert("/pprof/conf"@.len() != "/pprof/stats"@.len());
    assert("/pprof/heap"@.len() != "/pprof/cmdline"@.len());
    assert("/pprof/heap"@.len() != "/pprof/symbol"@.len());
    assert("/pprof/heap"@.len() != "/pprof/stats"@.len());
    assert("/pprof/cmdline"@.len() != "/pprof/symbol"@.len());
    assert("/pprof/cmdline"@.len() != "/pprof/stats"@.len());
    assert("/pprof/symbol"@.len() != "/pprof/stats"@.len());
    lemma_texts_differ("/pprof/conf", "/pprof/heap");
    lemma_texts_differ("/pprof/conf", "/pprof/cmdline");
    lemma_texts_differ("/pprof/conf", "/pprof/symbol");
    lemma_texts_differ("/pprof/conf", "/pprof/stats");
    lemma_texts_differ("/pprof/heap", "/pprof/cmdline");
    lemma_texts_differ("/pprof/heap", "/pprof/symbol");
    lemma_texts_differ("/pprof/heap", "/pprof/stats");
    lemma_texts_differ("/pprof/cmdline", "/pprof/symbol");
    lemma_texts_differ("/pprof/cmdline", "/pprof/stats");
    lemma_texts_differ("/pprof/symbol", "/pprof/stats");
}

/// Settings are applied in the order of the query, and none is applied
/// after one that failed: when the next step is an operation, it is what
/// the setting at the position of the next reply asks, and every setting
/// before it asked an operation that went through.
pub proof fn lemma_settings_in_order(
    pairs: Seq<(Seq<u8>, Option<Seq<u8>>)>,
    replies: Seq<ReplyView>,
    i: int,
)
    requires
        0 <= i < replies.len(),
        apply_settings(pairs, replies, i) is Call,
    ensures
        ({
            let k = replies.len() - 1;
            &&& i <= k < pairs.len()
            &&& conf_operation(pairs[k].0, pairs[k].1) == Ok::<OperationView, Seq<u8>>(
                apply_settings(pairs, replies, i)->Call_0,
            )
            &&& forall|j: int|
                i <= j < k ==> conf_operation(#[trigger] pairs[j].0, pairs[j].1) is Ok
                    && replies[j + 1].done() is Ok
        }),
    decreases pairs.len() - i,
{
    if i < pairs.len() {
        match conf_operation(pairs[i].0, pairs[i].1) {
            Ok(operation) => {
                if replies.len() > i + 1 {
                    lemma_settings_in_order(pairs, replies, i + 1);
                }
            },
            Err(_) => {},
        }
    }
}

/// A conversation in which every reply is what its operation hands back
/// when it went through ends in success: the configuration status, the
/// profile as an attachment, the statistics report.
pub proof fn lemma_accepted_replies_succeed(replies: Seq<ReplyView>)
    requires
        replies.len() >= 1,
    ensures
        OperationView::Stats.accepts(replies[0]) ==> get_stats_step(replies) == text_step(
            replies[0]->Bytes_0,
        ),
        replies.len() >= 3 && replies[0] == ReplyView::Flag(true)
            && OperationView::IsActive.accepts(replies[1])
            && OperationView::SampleInterval.accepts(replies[2]) ==> get_conf_step(replies)
            == text_step(conf_status(true, replies[1]->Flag_0, replies[2]->Number_0)),
        replies.len() >= 3 && replies[0] == ReplyView::Flag(true) && replies[1] is File
            && OperationView::Dump(Some(replies[1]->File_0)).accepts(replies[2])
            ==> get_heap_step(replies) == StepView::Respond(
            attachment_response(replies[2]->Bytes_0, replies[1]->File_1),
        ),
{
}

/// A configuration update whose settings are all well-formed and all go
/// through is answered with `OK`.
pub proof fn lemma_settings_succeed(
    pairs: Seq<(Seq<u8>, Option<Seq<u8>>)>,
    replies: Seq<ReplyView>,
    i: int,
)
    requires
        0 <= i,
        replies.len() > pairs.len(),
        forall|j: int|
            i <= j < pairs.len() ==> conf_operation(#[trigger] pairs[j].0, pairs[j].1) is Ok
                && replies[j + 1] == ReplyView::Done,
    ensures
        apply_settings(pairs, replies, i) == text_step("OK\r\n".spec_bytes()),
    decreases pairs.len() - i,
{
    if i < pairs.len() {
        assert(conf_operation(pairs[i].0, pairs[i].1) is Ok);
        lemma_settings_succeed(pairs, replies, i + 1);
    }
}

} // verus!
