use microchassis::control::{Operation, Reply};
use microchassis::error::ControlError;
use microchassis::jeprof::{
    self, conf_command, find_route, get_pprof_cmdline_handler, get_pprof_conf_handler,
    get_pprof_heap_handler, get_pprof_stats_handler, get_pprof_symbol_handler,
    parse_malloc_conf_query, post_pprof_conf_handler, post_pprof_symbol_handler, read_setting,
    router, write_conf_status, write_failed_setting_message, write_fault_message, Method,
    Request, Route, SettingFault, Step,
};
use microchassis::response::Response;
use microchassis::symbol_table::{LoadMapping, SymbolTable};
use std::cell::RefCell;

/// A control channel that keeps its state in memory.
struct FakeChannel {
    enabled: bool,
    active: bool,
    lg_sample: usize,
    resets: usize,
    refuse_writes: Option<ControlError>,
    refuse_files: bool,
    refuse_dumps: bool,
    calls: usize,
}

fn channel(enabled: bool) -> FakeChannel {
    FakeChannel {
        enabled,
        active: false,
        lg_sample: 19,
        resets: 0,
        refuse_writes: None,
        refuse_files: false,
        refuse_dumps: false,
        calls: 0,
    }
}

fn perform(channel: &mut FakeChannel, operation: &Operation) -> Reply {
    channel.calls += 1;
    match operation {
        Operation::IsProfilingEnabled => Reply::Flag(channel.enabled),
        Operation::IsActive => Reply::Flag(channel.active),
        Operation::SampleInterval => Reply::Number(channel.lg_sample),
        Operation::SetActive(state) => match channel.refuse_writes {
            Some(error) => Reply::Failed(error),
            None => {
                channel.active = *state;
                Reply::Done
            }
        },
        Operation::Reset(sample) => match channel.refuse_writes {
            Some(error) => Reply::Failed(error),
            None => {
                channel.resets += 1;
                if let Some(sample) = sample {
                    channel.lg_sample = *sample;
                }
                Reply::Done
            }
        },
        Operation::Dump(Some(path)) => {
            if channel.refuse_dumps {
                Reply::Failed(ControlError::Io)
            } else {
                Reply::Bytes(format!("heap profile in {path}").into_bytes())
            }
        }
        Operation::Dump(None) => Reply::Done,
        Operation::Stats => Reply::Bytes(b"___ Begin jemalloc statistics ___\n".to_vec()),
    }
}

fn answer(channel: &mut FakeChannel, step: &Step) -> Reply {
    match step {
        Step::Call(operation) => perform(channel, operation),
        Step::CreateDumpFile => {
            channel.calls += 1;
            if channel.refuse_files {
                Reply::Failed(ControlError::Io)
            } else {
                Reply::File("/tmp/jemalloc.Ab12.prof".to_string(), "jemalloc.Ab12.prof".to_string())
            }
        }
        Step::Respond(_) => panic!("the response is no step for the host"),
    }
}

fn serve(channel: &mut FakeChannel, sym: &SymbolTable, request: &Request) -> Response {
    let args = vec!["service".to_string(), "--port=80".to_string()];
    let channel = RefCell::new(channel);
    jeprof::serve(sym, &args, request, |step: &Step| answer(&mut channel.borrow_mut(), step))
}

/// Runs the conversation step by step, as a host does that cannot hand out
/// a function.
fn serve_by_hand(channel: &mut FakeChannel, sym: &SymbolTable, request: &Request) -> Response {
    let args = vec!["service".to_string(), "--port=80".to_string()];
    let mut replies: Vec<Reply> = Vec::new();
    loop {
        match router(sym, &args, request, &replies) {
            Step::Respond(response) => return response,
            step => replies.push(answer(channel, &step)),
        }
    }
}

fn request(method: Method, path: &str, query: Option<&str>, body: &[u8]) -> Request {
    Request {
        method,
        path: path.as_bytes().to_vec(),
        query: query.map(|q| q.as_bytes().to_vec()),
        body: body.to_vec(),
    }
}

fn get(path: &str) -> Request {
    request(Method::Get, path, None, b"")
}

fn post_conf(query: &str) -> Request {
    request(Method::Post, "/pprof/conf", Some(query), b"")
}

fn assert_text(response: &Response, status: u16, body: &str) {
    assert_eq!(status, response.status);
    assert_eq!(body, String::from_utf8_lossy(&response.body));
    assert_eq!("text/plain; charset=UTF-8", response.content_type);
    assert_eq!(None, response.content_disposition);
    assert_eq!(body.len(), response.content_length());
}

#[test]
fn get_conf_reports_active_and_sample_interval() {
    let sym = SymbolTable::new();
    let mut ch = channel(true);
    let response = serve(&mut ch, &sym, &get("/pprof/conf"));
    assert_text(&response, 200, "opt.prof:true,prof.active:false,prof.lg_sample:19\r\n");
    assert_eq!(3, ch.calls);
}

#[test]
fn post_conf_sets_active_and_get_conf_shows_it() {
    let sym = SymbolTable::new();
    let mut ch = channel(true);
    let response = serve(&mut ch, &sym, &post_conf("prof.active:true"));
    assert_text(&response, 200, "OK\r\n");
    assert!(ch.active);
    let response = serve(&mut ch, &sym, &get("/pprof/conf"));
    assert_text(&response, 200, "opt.prof:true,prof.active:true,prof.lg_sample:19\r\n");
    let response = serve(&mut ch, &sym, &post_conf("prof.active:false"));
    assert_text(&response, 200, "OK\r\n");
    let response = serve(&mut ch, &sym, &get("/pprof/conf"));
    assert_text(&response, 200, "opt.prof:true,prof.active:false,prof.lg_sample:19\r\n");
}

#[test]
fn post_conf_refuses_an_unknown_key() {
    let sym = SymbolTable::new();
    let mut ch = channel(true);
    let response = serve(&mut ch, &sym, &post_conf("foo:bar"));
    assert_text(&response, 400, "foo=Some(\"bar\") unknown\r\n");
    assert!(String::from_utf8_lossy(&response.body).contains("foo"));
    // only the question whether profiling is enabled reached the channel
    assert_eq!(1, ch.calls);
}

#[test]
fn post_conf_resets_with_a_new_sample_interval() {
    let sym = SymbolTable::new();
    let mut ch = channel(true);
    let response = serve(&mut ch, &sym, &post_conf("prof.reset:8"));
    assert_text(&response, 200, "OK\r\n");
    assert_eq!(8, ch.lg_sample);
    assert_eq!(1, ch.resets);
    let response = serve(&mut ch, &sym, &get("/pprof/conf"));
    assert_text(&response, 200, "opt.prof:true,prof.active:false,prof.lg_sample:8\r\n");
    let response = serve(&mut ch, &sym, &post_conf("prof.reset:+10"));
    assert_text(&response, 200, "OK\r\n");
    assert_eq!(10, ch.lg_sample);
}

#[test]
fn post_conf_refuses_malformed_values() {
    let sym = SymbolTable::new();
    let mut ch = channel(true);
    let response = serve(&mut ch, &sym, &post_conf("prof.reset"));
    assert_text(&response, 400, "invalid prof.reset value: None\r\n");
    let response = serve(&mut ch, &sym, &post_conf("prof.reset:abc"));
    assert_text(&response, 400, "invalid prof.reset value: Some(\"abc\")\r\n");
    let response = serve(&mut ch, &sym, &post_conf("prof.reset:"));
    assert_text(&response, 400, "invalid prof.reset value: Some(\"\")\r\n");
    let response = serve(&mut ch, &sym, &post_conf("prof.reset:-1"));
    assert_text(&response, 400, "invalid prof.reset value: Some(\"-1\")\r\n");
    let response = serve(&mut ch, &sym, &post_conf("prof.active"));
    assert_text(&response, 400, "prof.active needs value\r\n");
    let response = serve(&mut ch, &sym, &post_conf("prof.active:yes"));
    assert_text(&response, 400, "invalid prof.active value: \"yes\"\r\n");
    let response = serve(&mut ch, &sym, &post_conf("prof.active:TRUE"));
    assert_text(&response, 400, "invalid prof.active value: \"TRUE\"\r\n");
    let response = serve(&mut ch, &sym, &post_conf(""));
    assert_text(&response, 400, "=None unknown\r\n");
    assert_eq!(0, ch.resets);
    assert!(!ch.active);
    assert_eq!(19, ch.lg_sample);
}

#[test]
fn post_conf_quotes_values_as_debug_does() {
    let sym = SymbolTable::new();
    let mut ch = channel(true);
    let response = serve(&mut ch, &sym, &post_conf("prof.active:a\"b\\c"));
    assert_text(&response, 400, "invalid prof.active value: \"a\\\"b\\\\c\"\r\n");
    let response = serve(&mut ch, &sym, &post_conf("k:tab\there"));
    assert_text(&response, 400, "k=Some(\"tab\\there\") unknown\r\n");
    // bytes that are no UTF-8 show as the replacement character
    let query = Request {
        method: Method::Post,
        path: b"/pprof/conf".to_vec(),
        query: Some(b"prof.active:\xff".to_vec()),
        body: Vec::new(),
    };
    let response = serve(&mut ch, &sym, &query);
    assert_eq!(400, response.status);
    assert_eq!(b"invalid prof.active value: \"\xef\xbf\xbd\"\r\n".to_vec(), response.body);
}

#[test]
fn post_conf_without_query_changes_nothing() {
    let sym = SymbolTable::new();
    let mut ch = channel(true);
    let response = serve(&mut ch, &sym, &request(Method::Post, "/pprof/conf", None, b""));
    assert_text(&response, 200, "OK\r\n");
    assert_eq!(1, ch.calls);
}

#[test]
fn post_conf_applies_settings_in_order_and_stops_at_the_first_failure() {
    let sym = SymbolTable::new();
    let mut ch = channel(true);
    let response = serve(&mut ch, &sym, &post_conf("prof.reset:10,prof.active:true"));
    assert_text(&response, 200, "OK\r\n");
    assert_eq!(10, ch.lg_sample);
    assert!(ch.active);

    let mut ch = channel(true);
    let response = serve(&mut ch, &sym, &post_conf("prof.active:true,foo:bar,prof.reset:3"));
    assert_text(&response, 400, "foo=Some(\"bar\") unknown\r\n");
    assert!(ch.active);
    assert_eq!(0, ch.resets);
    assert_eq!(19, ch.lg_sample);
}

#[test]
fn post_conf_reports_what_the_allocator_refused() {
    let sym = SymbolTable::new();
    let mut ch = channel(true);
    ch.refuse_writes = Some(ControlError::NativeCode(14));
    let response = serve(&mut ch, &sym, &post_conf("prof.active:true,prof.reset:3"));
    assert_text(&response, 400, "prof.active=Some(\"true\") failed: mallctl error code: 14\r\n");
    assert_eq!(2, ch.calls);
    ch.refuse_writes = Some(ControlError::NativeCode(-2));
    let response = serve(&mut ch, &sym, &post_conf("prof.reset:3"));
    assert_text(&response, 400, "prof.reset=Some(\"3\") failed: mallctl error code: -2\r\n");
    ch.refuse_writes = Some(ControlError::Unavailable);
    let response = serve(&mut ch, &sym, &post_conf("prof.reset:3"));
    assert_text(&response, 400, "prof.reset=Some(\"3\") failed: mallctl unavailable\r\n");
}

#[test]
fn a_reply_of_the_wrong_type_is_a_failure() {
    let replies = vec![Reply::Flag(true), Reply::Number(1)];
    match post_pprof_conf_handler(Some(b"prof.active:true"), &replies) {
        Step::Respond(response) => assert_text(
            &response,
            400,
            "prof.active=Some(\"true\") failed: mallctl type mismatch\r\n",
        ),
        other => panic!("unexpected step {other:?}"),
    }
    let replies = vec![Reply::Flag(true), Reply::Number(1)];
    match get_pprof_conf_handler(&replies) {
        Step::Respond(response) => assert_text(&response, 400, "failed to read prof.active\r\n"),
        other => panic!("unexpected step {other:?}"),
    }
    let replies = vec![Reply::Flag(true), Reply::Flag(true), Reply::Done];
    match get_pprof_conf_handler(&replies) {
        Step::Respond(response) => {
            assert_text(&response, 400, "failed to read prof.lg_sample\r\n")
        }
        other => panic!("unexpected step {other:?}"),
    }
    // a number is no answer to the question whether profiling is enabled
    let replies = vec![Reply::Number(1)];
    match get_pprof_conf_handler(&replies) {
        Step::Respond(response) => assert_text(&response, 400, "jemalloc profiling not enabled"),
        other => panic!("unexpected step {other:?}"),
    }
}

#[test]
fn disabled_profiling_guards_conf_and_heap() {
    let sym = SymbolTable::new();
    let mut ch = channel(false);
    let response = serve(&mut ch, &sym, &get("/pprof/conf"));
    assert_text(&response, 400, "jemalloc profiling not enabled");
    let response = serve(&mut ch, &sym, &post_conf("prof.active:true"));
    assert_text(&response, 400, "jemalloc profiling not enabled\r\n");
    let response = serve(&mut ch, &sym, &post_conf("foo:bar"));
    assert_text(&response, 400, "jemalloc profiling not enabled\r\n");
    let response = serve(&mut ch, &sym, &request(Method::Post, "/pprof/conf", None, b"x"));
    assert_text(&response, 400, "jemalloc profiling not enabled\r\n");
    let response = serve(&mut ch, &sym, &request(Method::Get, "/pprof/conf", Some("a:b"), b""));
    assert_text(&response, 400, "jemalloc profiling not enabled");
    let response = serve(&mut ch, &sym, &get("/pprof/heap"));
    assert_text(&response, 400, "jemalloc profiling not enabled\r\n");
    // one question for each request, and nothing else
    assert_eq!(6, ch.calls);
    assert!(!ch.active);

    // a channel that cannot tell is a channel without profiling
    let replies = vec![Reply::Failed(ControlError::Unavailable)];
    match get_pprof_heap_handler(&replies) {
        Step::Respond(response) => {
            assert_text(&response, 400, "jemalloc profiling not enabled\r\n")
        }
        other => panic!("unexpected step {other:?}"),
    }
}

#[test]
fn get_heap_sends_the_profile_as_an_attachment() {
    let sym = SymbolTable::new();
    let mut ch = channel(true);
    let response = serve(&mut ch, &sym, &get("/pprof/heap"));
    assert_eq!(200, response.status);
    assert_eq!("application/octet-stream", response.content_type);
    assert_eq!(
        Some("attachment; filename=\"jemalloc.Ab12.prof\"".to_string()),
        response.content_disposition
    );
    assert_eq!(b"heap profile in /tmp/jemalloc.Ab12.prof".to_vec(), response.body);
    assert_eq!(response.body.len(), response.content_length());
    assert_eq!(3, ch.calls);
}

#[test]
fn get_heap_walks_through_its_steps() {
    let mut replies: Vec<Reply> = Vec::new();
    assert!(matches!(get_pprof_heap_handler(&replies), Step::Call(Operation::IsProfilingEnabled)));
    replies.push(Reply::Flag(true));
    assert!(matches!(get_pprof_heap_handler(&replies), Step::CreateDumpFile));
    replies.push(Reply::File("/var/tmp/jemalloc.1.prof".to_string(), "jemalloc.1.prof".to_string()));
    match get_pprof_heap_handler(&replies) {
        Step::Call(Operation::Dump(Some(path))) => assert_eq!("/var/tmp/jemalloc.1.prof", path),
        other => panic!("unexpected step {other:?}"),
    }
    replies.push(Reply::Bytes(vec![0, 1, 2, 255]));
    match get_pprof_heap_handler(&replies) {
        Step::Respond(response) => {
            assert_eq!(vec![0, 1, 2, 255], response.body);
            assert_eq!(4, response.content_length());
        }
        other => panic!("unexpected step {other:?}"),
    }
}

#[test]
fn get_heap_reports_its_failures() {
    let sym = SymbolTable::new();
    let mut ch = channel(true);
    ch.refuse_files = true;
    let response = serve(&mut ch, &sym, &get("/pprof/heap"));
    assert_text(&response, 400, "cannot create temporary file for profile dump\r\n");
    assert_eq!(2, ch.calls);
    let mut ch = channel(true);
    ch.refuse_dumps = true;
    let response = serve(&mut ch, &sym, &get("/pprof/heap"));
    assert_text(&response, 400, "failed to dump profile\r\n");
    // a dump that hands back no bytes is a failure too
    let replies =
        vec![Reply::Flag(true), Reply::File("/p".to_string(), "p".to_string()), Reply::Done];
    match get_pprof_heap_handler(&replies) {
        Step::Respond(response) => assert_text(&response, 400, "failed to dump profile\r\n"),
        other => panic!("unexpected step {other:?}"),
    }
}

#[test]
fn get_cmdline_lists_the_arguments() {
    let sym = SymbolTable::new();
    let mut ch = channel(false);
    let response = serve(&mut ch, &sym, &get("/pprof/cmdline"));
    assert_text(&response, 200, "service\r\n--port=80\r\n");
    assert_eq!(0, ch.calls);
    let response = get_pprof_cmdline_handler(&Vec::new());
    assert_text(&response, 200, "");
    let response = get_pprof_cmdline_handler(&vec!["caf\u{e9}".to_string()]);
    assert_text(&response, 200, "caf\u{e9}\r\n");
}

fn two_symbols() -> SymbolTable {
    SymbolTable::from_entries(vec![(0x1000, "f".to_string()), (0x3000, "g".to_string())])
}

#[test]
fn get_symbol_counts_the_symbols() {
    let mut ch = channel(false);
    let response = serve(&mut ch, &two_symbols(), &get("/pprof/symbol"));
    assert_text(&response, 200, "num_symbols: 2\r\n");
    let response = get_pprof_symbol_handler(&SymbolTable::new());
    assert_text(&response, 200, "num_symbols: 0\r\n");
}

#[test]
fn post_symbol_resolves_one_of_two_addresses() {
    let mut sym = SymbolTable::from_entries(vec![(0x1000, "f".to_string())]);
    // the second address is moved to where the file has nothing before it
    let mapping = LoadMapping { runtime_start: 0x2000, runtime_end: 0x3000, file_offset: 0 };
    assert!(sym.set_load_mapping(mapping));
    let mut ch = channel(false);
    let response =
        serve(&mut ch, &sym, &request(Method::Post, "/pprof/symbol", None, b"0x1000+0x2000"));
    assert_text(&response, 200, "0x1000\tf\r\n");
    // an address before the first symbol has no line either
    let sym = SymbolTable::from_entries(vec![(0x1000, "f".to_string())]);
    let response = post_pprof_symbol_handler(&sym, b"0x1000+0x200");
    assert_text(&response, 200, "0x1000\tf\r\n");
}

#[test]
fn post_symbol_resolves_to_the_enclosing_symbol() {
    let sym = SymbolTable::from_entries(vec![(0x1000, "f".to_string())]);
    let response = post_pprof_symbol_handler(&sym, b"0x1000+0x2000");
    assert_text(&response, 200, "0x1000\tf\r\n0x2000\tf\r\n");
    let response = post_pprof_symbol_handler(&two_symbols(), b"0x2fff+0x3000+fff+0xffffffffffffffff");
    assert_text(&response, 200, "0x2fff\tf\r\n0x3000\tg\r\n0xffffffffffffffff\tg\r\n");
}

#[test]
fn post_symbol_reads_hexadecimal_with_or_without_prefix() {
    let sym = SymbolTable::from_entries(vec![(0, "zero".to_string()), (0xabc, "abc".to_string())]);
    let response = post_pprof_symbol_handler(&sym, b"abc+0xABC+0XABC+0x0xabd+10+0+0x+ +1g++-1");
    assert_text(
        &response,
        200,
        "0xabc\tabc\r\n0xabc\tabc\r\n0xabd\tabc\r\n0x10\tzero\r\n0x0\tzero\r\n",
    );
    let response = post_pprof_symbol_handler(&sym, b"");
    assert_text(&response, 200, "");
    let response = post_pprof_symbol_handler(&sym, b"10000000000000000");
    assert_text(&response, 200, "");
}

#[test]
fn get_stats_sends_the_report() {
    let sym = SymbolTable::new();
    let mut ch = channel(false);
    let response = serve(&mut ch, &sym, &get("/pprof/stats"));
    assert_text(&response, 200, "___ Begin jemalloc statistics ___\n");
    assert_eq!(1, ch.calls);
    let replies = vec![Reply::Failed(ControlError::Io)];
    match get_pprof_stats_handler(&replies) {
        Step::Respond(response) => {
            assert_text(&response, 400, "failed to print stats: I/O error\r\n")
        }
        other => panic!("unexpected step {other:?}"),
    }
    let replies = vec![Reply::Flag(true)];
    match get_pprof_stats_handler(&replies) {
        Step::Respond(response) => {
            assert_text(&response, 400, "failed to print stats: mallctl type mismatch\r\n")
        }
        other => panic!("unexpected step {other:?}"),
    }
}

#[test]
fn unknown_routes_are_bad_requests() {
    let sym = SymbolTable::new();
    let mut ch = channel(true);
    let requests = vec![
        get("/pprof/unknown"),
        get("/pprof/conf/"),
        get("/"),
        get(""),
        request(Method::Post, "/pprof/heap", None, b""),
        request(Method::Post, "/pprof/cmdline", None, b""),
        request(Method::Post, "/pprof/stats", None, b""),
        request(Method::Other, "/pprof/conf", None, b""),
        request(Method::Other, "/pprof/symbol", None, b"0x1"),
    ];
    for request in &requests {
        let response = serve(&mut ch, &sym, request);
        assert_text(&response, 400, "Bad Request\r\n");
        assert_eq!(13, response.content_length());
    }
    assert_eq!(0, ch.calls);
}

#[test]
fn routes_are_found_by_method_and_path() {
    assert_eq!(Route::GetConf, find_route(Method::Get, b"/pprof/conf"));
    assert_eq!(Route::PostConf, find_route(Method::Post, b"/pprof/conf"));
    assert_eq!(Route::GetHeap, find_route(Method::Get, b"/pprof/heap"));
    assert_eq!(Route::GetCmdline, find_route(Method::Get, b"/pprof/cmdline"));
    assert_eq!(Route::GetSymbol, find_route(Method::Get, b"/pprof/symbol"));
    assert_eq!(Route::PostSymbol, find_route(Method::Post, b"/pprof/symbol"));
    assert_eq!(Route::GetStats, find_route(Method::Get, b"/pprof/stats"));
    assert_eq!(Route::Unknown, find_route(Method::Get, b"/pprof/Conf"));
    assert_eq!(Route::Unknown, find_route(Method::Other, b"/pprof/heap"));
}

#[test]
fn conf_query_falls_into_settings() {
    assert_eq!(Vec::<(Vec<u8>, Option<Vec<u8>>)>::new(), parse_malloc_conf_query(None));
    assert_eq!(vec![(Vec::new(), None)], parse_malloc_conf_query(Some(b"")));
    assert_eq!(
        vec![
            (b"a".to_vec(), Some(b"1".to_vec())),
            (b"b".to_vec(), None),
            (Vec::new(), None),
            (b"c".to_vec(), Some(b"x:y".to_vec())),
            (Vec::new(), Some(Vec::new())),
        ],
        parse_malloc_conf_query(Some(b"a:1,b,,c:x:y,:"))
    );
}

#[test]
fn conf_command_names_the_operation() {
    assert_eq!(Ok(Operation::Reset(Some(0))), conf_command(b"prof.reset", &Some(b"0".to_vec())));
    assert_eq!(Ok(Operation::Reset(Some(7))), conf_command(b"prof.reset", &Some(b"007".to_vec())));
    assert_eq!(
        Ok(Operation::SetActive(true)),
        conf_command(b"prof.active", &Some(b"true".to_vec()))
    );
    assert_eq!(
        Ok(Operation::SetActive(false)),
        conf_command(b"prof.active", &Some(b"false".to_vec()))
    );
    match conf_command(b"prof.reset", &Some(b"99999999999999999999999".to_vec())) {
        Err(message) => assert_eq!(
            "invalid prof.reset value: Some(\"99999999999999999999999\")\r\n",
            String::from_utf8_lossy(&message)
        ),
        Ok(operation) => panic!("unexpected operation {operation:?}"),
    }
    match conf_command(b"prof.dump", &None) {
        Err(message) => {
            assert_eq!("prof.dump=None unknown\r\n", String::from_utf8_lossy(&message))
        }
        Ok(operation) => panic!("unexpected operation {operation:?}"),
    }
}

#[test]
fn serving_and_stepping_by_hand_agree() {
    let sym = two_symbols();
    let requests = vec![
        get("/pprof/conf"),
        post_conf("prof.active:true,prof.reset:7"),
        post_conf("prof.active:true,bad,prof.reset:7"),
        get("/pprof/heap"),
        get("/pprof/cmdline"),
        get("/pprof/symbol"),
        request(Method::Post, "/pprof/symbol", None, b"1000+3000"),
        get("/pprof/stats"),
        get("/nowhere"),
    ];
    for enabled in [true, false] {
        for request in &requests {
            let mut first = channel(enabled);
            let mut second = channel(enabled);
            let served = serve(&mut first, &sym, request);
            let stepped = serve_by_hand(&mut second, &sym, request);
            assert_eq!(served, stepped);
            assert_eq!(first.calls, second.calls);
            assert_eq!(first.active, second.active);
            assert_eq!(first.lg_sample, second.lg_sample);
        }
    }
}

#[test]
fn a_conversation_needs_no_more_replies_than_settings_and_one() {
    let sym = SymbolTable::new();
    let mut ch = channel(true);
    let response = serve(&mut ch, &sym, &post_conf("prof.reset:1,prof.reset:2,prof.reset:3"));
    assert_text(&response, 200, "OK\r\n");
    assert_eq!(4, ch.calls);
    assert_eq!(3, ch.resets);
    assert_eq!(3, ch.lg_sample);
}

#[test]
fn settings_are_read() {
    assert_eq!(Ok(Operation::Reset(Some(12))), read_setting(b"prof.reset", &Some(b"12".to_vec())));
    assert_eq!(Err(SettingFault::InvalidReset), read_setting(b"prof.reset", &None));
    assert_eq!(Err(SettingFault::InvalidReset), read_setting(b"prof.reset", &Some(b"x".to_vec())));
    assert_eq!(
        Ok(Operation::SetActive(true)),
        read_setting(b"prof.active", &Some(b"true".to_vec()))
    );
    assert_eq!(
        Ok(Operation::SetActive(false)),
        read_setting(b"prof.active", &Some(b"false".to_vec()))
    );
    assert_eq!(Err(SettingFault::MissingActive), read_setting(b"prof.active", &None));
    assert_eq!(
        Err(SettingFault::InvalidActive),
        read_setting(b"prof.active", &Some(b"1".to_vec()))
    );
    assert_eq!(Err(SettingFault::Unknown), read_setting(b"prof.lg_sample", &Some(b"1".to_vec())));
    assert_eq!(Err(SettingFault::Unknown), read_setting(b"", &None));
    assert_eq!(Err(SettingFault::Unknown), read_setting(b"PROF.RESET", &Some(b"1".to_vec())));
}

#[test]
fn messages_are_written_around_the_shown_value() {
    assert_eq!(
        b"invalid prof.reset value: SHOWN\r\n".to_vec(),
        write_fault_message(SettingFault::InvalidReset, b"prof.reset", b"VALUE", b"SHOWN")
    );
    assert_eq!(
        b"prof.active needs value\r\n".to_vec(),
        write_fault_message(SettingFault::MissingActive, b"prof.active", b"VALUE", b"SHOWN")
    );
    assert_eq!(
        b"invalid prof.active value: VALUE\r\n".to_vec(),
        write_fault_message(SettingFault::InvalidActive, b"prof.active", b"VALUE", b"SHOWN")
    );
    assert_eq!(
        b"key=SHOWN unknown\r\n".to_vec(),
        write_fault_message(SettingFault::Unknown, b"key", b"VALUE", b"SHOWN")
    );
    assert_eq!(
        b"key=SHOWN failed: mallctl error code: 1\r\n".to_vec(),
        write_failed_setting_message(b"key", b"SHOWN", ControlError::NativeCode(1))
    );
    assert_eq!(
        b"=  failed: I/O error\r\n".to_vec(),
        write_failed_setting_message(b"", b" ", ControlError::Io)
    );
}

#[test]
fn the_status_line_names_the_three_control_points() {
    assert_eq!(
        b"opt.prof:true,prof.active:false,prof.lg_sample:0\r\n".to_vec(),
        write_conf_status(true, false, 0)
    );
    assert_eq!(
        format!("opt.prof:false,prof.active:true,prof.lg_sample:{}\r\n", usize::MAX).into_bytes(),
        write_conf_status(false, true, usize::MAX)
    );
}
