use bottom::query::attribute::ProcessRecord;
use bottom::query::parser::{compile, update_query, Query};
use bottom::query::{Capabilities, QueryError, QueryOptions};

fn record(name: &str) -> ProcessRecord {
    ProcessRecord {
        pid: 1234,
        name: name.to_string(),
        command: format!("/usr/bin/{name} --flag"),
        cpu_usage_percent: Some(0),
        mem_usage: 0,
        mem_usage_percent: Some(0),
        read_per_sec: 0,
        write_per_sec: 0,
        total_read: 0,
        total_write: 0,
        process_state: "running".to_string(),
        user: Some("alice".to_string()),
        time_millis: 0,
        nice: 0,
        priority: 20,
        gpu_util: 0,
        gpu_mem_percent: None,
        gpu_mem: 0,
    }
}

fn options(use_regex: bool, ignore_case: bool, whole_word: bool) -> QueryOptions {
    QueryOptions { use_regex, ignore_case, whole_word }
}

fn all_caps() -> Capabilities {
    Capabilities { nice: true, gpu: true }
}

fn build(filter: &str, opts: QueryOptions) -> Query {
    compile(filter, &opts, &all_caps()).expect("filter compiles")
}

#[test]
fn cpu_threshold_splits_busy_and_idle() {
    let q = build("cpu > 50", options(false, false, false));
    let mut busy = record("a");
    busy.cpu_usage_percent = Some(75_000_000);
    let mut idle = record("b");
    idle.cpu_usage_percent = Some(10_000_000);
    assert!(q.check(&busy, false));
    assert!(!q.check(&idle, false));
    let mut nan = record("c");
    nan.cpu_usage_percent = None;
    assert!(!q.check(&nan, false));
}

#[test]
fn whole_word_name_needs_the_exact_name() {
    let q = build("name=firefox", options(false, false, true));
    assert!(!q.check(&record("firefox-bin"), false));
    assert!(q.check(&record("firefox"), false));
    let loose = build("name=firefox", options(false, false, false));
    assert!(loose.check(&record("firefox-bin"), false));
}

#[test]
fn ignore_case_matches_other_case() {
    let q = build("FireFox", options(false, true, false));
    assert!(q.check(&record("firefox"), false));
    let strict = build("FireFox", options(false, false, false));
    assert!(!strict.check(&record("firefox"), false));
}

#[test]
fn negated_state_group() {
    let q = build("!(state=running)", options(false, false, true));
    let mut sleeping = record("a");
    sleeping.process_state = "sleeping".to_string();
    assert!(q.check(&sleeping, false));
    assert!(!q.check(&record("b"), false));
}

#[test]
fn regex_mode_searches_with_anchors() {
    let q = build("^fire.*", options(true, false, false));
    assert!(q.check(&record("firefox"), false));
    assert!(q.check(&record("firewall"), false));
    assert!(!q.check(&record("icefire"), false));
}

#[test]
fn comparison_without_number_is_rejected() {
    let opts = options(false, false, false);
    let previous = build("cpu > 10", opts);
    let err = compile("cpu >", &opts, &all_caps()).err().expect("must fail");
    assert!(matches!(err, QueryError::InvalidNumberOrUnit(_)));
    let mut busy = record("a");
    busy.cpu_usage_percent = Some(20_000_000);
    assert!(previous.check(&busy, false));
}

#[test]
fn full_width_and_half_width_compare_equal() {
    for ignore_case in [false, true] {
        let q = build("ＦＩＲＥ", options(false, ignore_case, false));
        assert!(q.check(&record("FIREFOX"), false));
        let q = build("FIRE", options(false, ignore_case, false));
        assert!(q.check(&record("ＦＩＲＥＦＯＸ"), false));
    }
}

#[test]
fn empty_filter_matches_everything() {
    for filter in ["", "   ", "()"] {
        let q = build(filter, options(false, false, false));
        assert!(q.check(&record("anything"), false));
        assert!(q.check(&record("anything"), true));
    }
}

#[test]
fn precedence_and_grouping() {
    let opts = options(false, false, true);
    let q = build("name=a or name=b and name=c", opts);
    assert!(q.check(&record("a"), false));
    assert!(!q.check(&record("b"), false));
    let q = build("(name=a or name=b) and name=c", opts);
    assert!(!q.check(&record("a"), false));
    let q = build("name=a || name=b", opts);
    assert!(q.check(&record("b"), false));
    let q = build("!name=a && !name=b", opts);
    assert!(q.check(&record("c"), false));
    assert!(!q.check(&record("a"), false));
}

#[test]
fn untagged_search_reads_command_when_asked() {
    let q = build("flag", options(false, false, false));
    assert!(!q.check(&record("firefox"), false));
    assert!(q.check(&record("firefox"), true));
}

#[test]
fn pid_user_and_missing_user() {
    let opts = options(false, false, true);
    assert!(build("pid=1234", opts).check(&record("a"), false));
    assert!(!build("pid=123", opts).check(&record("a"), false));
    assert!(build("pid:123", options(false, false, false)).check(&record("a"), false));
    let mut nobody = record("a");
    nobody.user = None;
    assert!(build("user=N/A", opts).check(&nobody, false));
    assert!(build("user:\"alice\"", opts).check(&record("a"), false));
}

#[test]
fn units_scale_thresholds() {
    let opts = options(false, false, false);
    let mut p = record("a");
    p.mem_usage = 2 * 1024 * 1024 * 1024;
    assert!(build("memb > 1GiB", opts).check(&p, false));
    assert!(!build("memb > 3gb", opts).check(&p, false));
    assert!(build("memb = 2GiB", opts).check(&p, false));
    p.time_millis = 90_000;
    assert!(build("time >= 1.5m", opts).check(&p, false));
    assert!(!build("time > 90", opts).check(&p, false));
    p.read_per_sec = 1500;
    assert!(build("read > 1.4kb", opts).check(&p, false));
    p.nice = -5;
    assert!(build("nice < -1", opts).check(&p, false));
    assert!(build("pri = 20", opts).check(&p, false));
    p.mem_usage_percent = Some(12_500_000);
    assert!(build("mem <= 12.5%", opts).check(&p, false));
}

#[test]
fn each_error_kind_has_an_input() {
    let opts = options(false, false, false);
    let caps = all_caps();
    assert!(matches!(compile("\"open", &opts, &caps), Err(QueryError::LexError(_))));
    assert!(matches!(compile("(name=a", &opts, &caps), Err(QueryError::LexError(_))));
    assert!(matches!(compile("name=a )", &opts, &caps), Err(QueryError::LexError(_))));
    assert!(matches!(compile("name=a and", &opts, &caps), Err(QueryError::LexError(_))));
    assert!(matches!(compile("bogus:1", &opts, &caps), Err(QueryError::UnknownPrefix(_))));
    assert!(matches!(
        compile("time > \"5\"", &opts, &caps),
        Err(QueryError::UnsupportedAttributeForPrefix(_, _))
    ));
    assert!(matches!(
        compile("name > 5", &opts, &caps),
        Err(QueryError::UnsupportedAttributeForPrefix(_, _))
    ));
    assert!(matches!(
        compile("(", &options(true, false, false), &caps),
        Err(QueryError::LexError(_))
    ));
    assert!(matches!(
        compile("\"a(\"", &options(true, false, false), &caps),
        Err(QueryError::InvalidRegex(_))
    ));
    assert!(matches!(compile("cpu > 5x", &opts, &caps), Err(QueryError::InvalidNumberOrUnit(_))));
    assert!(matches!(compile("cpu > 1.2345678", &opts, &caps), Err(QueryError::InvalidNumberOrUnit(_))));
}

#[test]
fn capabilities_gate_prefixes() {
    let opts = options(false, false, false);
    let none = Capabilities { nice: false, gpu: false };
    assert!(matches!(compile("nice > 0", &opts, &none), Err(QueryError::UnknownPrefix(_))));
    assert!(matches!(compile("gpu > 0", &opts, &none), Err(QueryError::UnknownPrefix(_))));
    assert!(compile("gmemb > 1mb", &opts, &all_caps()).is_ok());
}

#[test]
fn compiling_twice_behaves_the_same() {
    let opts = options(false, true, false);
    let a = build("cpu > 5 and (name:fox or !state=zombie)", opts);
    let b = build("cpu > 5 and (name:fox or !state=zombie)", opts);
    let mut p = record("Firefox");
    p.cpu_usage_percent = Some(6_000_000);
    assert_eq!(a.check(&p, false), b.check(&p, false));
    assert!(a.check(&p, false));
}

#[test]
fn failed_update_keeps_the_active_query() {
    let opts = options(false, false, false);
    let mut active = build("cpu > 10", opts);
    let err = update_query(&mut active, "cpu >", &opts, &all_caps());
    assert!(matches!(err, Some(QueryError::InvalidNumberOrUnit(_))));
    let mut busy = record("a");
    busy.cpu_usage_percent = Some(20_000_000);
    assert!(active.check(&busy, false));
    assert!(update_query(&mut active, "cpu > 50", &opts, &all_caps()).is_none());
    assert!(!active.check(&busy, false));
}
