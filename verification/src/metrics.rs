//! Execution-metrics aggregation: folds a line-delimited JSON event log into
//! a single summary of duration, token usage, cost and message count.
//!
//! Each line is read independently; a line that is not valid JSON contributes
//! nothing. What one line yields is extracted by one trusted call into the
//! JSON and timestamp parsers and named by [`event_of`]; the fold itself is
//! verified against the recursive specification [`agg`].

use vstd::prelude::*;

use crate::text;

verus! {

/// The plain values one log line contributes to the summary.
///
/// `cost` holds the decimal rendering of the line's cost figure; cost
/// arithmetic is carried in that form because this library's verified code
/// holds no floating-point values.
pub struct LogEvent {
    /// Millisecond timestamp of the event, where the line carries one.
    pub timestamp_ms: Option<i64>,
    /// `input_tokens` of the usage object, at top level or under `message`.
    pub input_tokens: Option<i64>,
    /// `output_tokens` of the same usage object.
    pub output_tokens: Option<i64>,
    /// Decimal text of the line's `cost` field.
    pub cost: Option<String>,
}

/// Ghost image of [`LogEvent`].
pub struct LogEventView {
    pub timestamp_ms: Option<i64>,
    pub input_tokens: Option<i64>,
    pub output_tokens: Option<i64>,
    pub cost: Option<Seq<char>>,
}

impl View for LogEvent {
    type V = LogEventView;

    open spec fn view(&self) -> LogEventView {
        LogEventView {
            timestamp_ms: self.timestamp_ms,
            input_tokens: self.input_tokens,
            output_tokens: self.output_tokens,
            cost: match self.cost {
                Option::None => Option::None,
                Option::Some(c) => Option::Some(c@),
            },
        }
    }
}

/// What one log line yields: `None` where the line is not valid JSON, and
/// otherwise the timestamp, token counts and cost found in it. The result
/// depends on the line's characters alone.
pub uninterp spec fn event_of(line: Seq<char>) -> Option<LogEventView>;

/// The decimal rendering of the sum of two cost figures, added as IEEE-754
/// doubles. The result depends on the two texts alone.
pub uninterp spec fn cost_plus(acc: Seq<char>, c: Seq<char>) -> Seq<char>;

/// Whether a cost figure is strictly greater than zero. The result depends
/// on the text alone.
pub uninterp spec fn cost_pos(acc: Seq<char>) -> bool;

/// Relies on `serde_json::from_str::<serde_json::Value>`,
/// `serde_json::Value::{get, as_str, as_i64, as_f64}`,
/// `chrono::DateTime::parse_from_rfc3339` and
/// `chrono::DateTime::timestamp_millis`: reads one log line as one event.
/// All of these are pure functions of the line's characters.
#[verifier::external_body]
fn read_event(line: &str) -> (r: Option<LogEvent>)
    ensures
        match r {
            Some(e) => event_of(line@) == Some(e@),
            None => event_of(line@) is None,
        },
{
    let v: serde_json::Value = serde_json::from_str(line).ok()?;
    let ts = v.get("timestamp").and_then(|t| t.as_str()).and_then(
        |s| chrono::DateTime::parse_from_rfc3339(s).ok(),
    );
    let usage = v.get("usage").or_else(|| v.get("message")?.get("usage"));
    let tok = |k: &str| usage.and_then(|u| u.get(k)).and_then(|t| t.as_i64());
    Some(LogEvent {
        timestamp_ms: ts.map(|t| t.timestamp_millis()),
        input_tokens: tok("input_tokens"),
        output_tokens: tok("output_tokens"),
        cost: v.get("cost").and_then(|c| c.as_f64()).map(|c| c.to_string()),
    })
}

/// Relies on `str::parse::<f64>`, IEEE-754 double addition and the standard
/// decimal rendering of doubles (which reparses to the same value): adds two
/// cost figures. The result depends on the two texts alone.
#[verifier::external_body]
fn add_costs(acc: &str, c: &str) -> (r: String)
    ensures
        r@ == cost_plus(acc@, c@),
{
    let x = serde_json::from_str::<serde_json::Value>("0").ok().and_then(
        |v| v.as_f64(),
    ).unwrap_or_default();
    let a = acc.parse().unwrap_or(x);
    let b = c.parse().unwrap_or(x);
    (a + b).to_string()
}

/// Relies on `str::parse::<f64>` and double comparison: whether a cost
/// figure is strictly greater than zero. The result depends on the text
/// alone; on the text `0` it is false, as `0` parses to zero and zero is not
/// above itself.
#[verifier::external_body]
fn cost_positive(acc: &str) -> (r: bool)
    ensures
        r == cost_pos(acc@),
        acc@ == seq!['0'] ==> !r,
{
    let zero = serde_json::from_str::<serde_json::Value>("0").ok().and_then(
        |v| v.as_f64(),
    ).unwrap_or_default();
    let a = acc.parse().unwrap_or(zero);
    a > zero
}

/// Addition on the 64-bit signed range, clamped at the ends.
pub open spec fn sat_add_spec(a: int, b: int) -> int {
    if a + b > i64::MAX as int {
        i64::MAX as int
    } else if a + b < i64::MIN as int {
        i64::MIN as int
    } else {
        a + b
    }
}

/// Subtraction on the 64-bit signed range, clamped at the ends.
pub open spec fn sat_sub_spec(a: int, b: int) -> int {
    sat_add_spec(a, -b)
}

/// Executable clamped addition.
pub fn sat_add(a: i64, b: i64) -> (r: i64)
    ensures
        r as int == sat_add_spec(a as int, b as int),
{
    if b >= 0 {
        if a > i64::MAX - b {
            i64::MAX
        } else {
            a + b
        }
    } else {
        if a < i64::MIN - b {
            i64::MIN
        } else {
            a + b
        }
    }
}

/// Executable clamped subtraction.
pub fn sat_sub(a: i64, b: i64) -> (r: i64)
    ensures
        r as int == sat_sub_spec(a as int, b as int),
{
    if b >= 0 {
        if a < i64::MIN + b {
            i64::MIN
        } else {
            a - b
        }
    } else {
        if a > i64::MAX + b {
            i64::MAX
        } else {
            a - b
        }
    }
}

/// The running accumulators of the fold.
pub struct AggState {
    pub tokens: int,
    pub cost: Seq<char>,
    pub count: int,
    pub min_ts: Option<int>,
    pub max_ts: Option<int>,
}

/// The state before any line is read: zero tokens, cost text `0`, no
/// messages, no timestamps.
pub open spec fn agg_init() -> AggState {
    AggState { tokens: 0, cost: seq!['0'], count: 0, min_ts: None, max_ts: None }
}

/// Folds one line into the accumulators. A line with no event leaves the
/// state unchanged; token additions clamp at the 64-bit signed range.
pub open spec fn agg_step(st: AggState, line: Seq<char>) -> AggState {
    match event_of(line) {
        Option::None => st,
        Option::Some(e) => {
            let t1 = match e.input_tokens {
                Option::None => st.tokens,
                Option::Some(x) => sat_add_spec(st.tokens, x as int),
            };
            let t2 = match e.output_tokens {
                Option::None => t1,
                Option::Some(x) => sat_add_spec(t1, x as int),
            };
            let cost = match e.cost {
                Option::None => st.cost,
                Option::Some(c) => cost_plus(st.cost, c),
            };
            let min_ts = match (st.min_ts, e.timestamp_ms) {
                (Option::None, Option::Some(t)) => Option::Some(t as int),
                (Option::Some(m), Option::Some(t)) => Option::Some(
                    if (t as int) < m {
                        t as int
                    } else {
                        m
                    },
                ),
                (m, Option::None) => m,
            };
            let max_ts = match (st.max_ts, e.timestamp_ms) {
                (Option::None, Option::Some(t)) => Option::Some(t as int),
                (Option::Some(m), Option::Some(t)) => Option::Some(
                    if (t as int) > m {
                        t as int
                    } else {
                        m
                    },
                ),
                (m, Option::None) => m,
            };
            AggState {
                tokens: t2,
                cost,
                count: sat_add_spec(st.count, 1),
                min_ts,
                max_ts,
            }
        },
    }
}

/// The fold of all lines, in order.
pub open spec fn agg(ls: Seq<Seq<char>>) -> AggState
    decreases ls.len(),
{
    if ls.len() == 0 {
        agg_init()
    } else {
        agg_step(agg(ls.drop_last()), ls.last())
    }
}

/// Runtime metrics computed from a log.
///
/// `cost_usd` carries the decimal text of the summed cost rather than a
/// binary floating-point value; callers that need a number parse it.
pub struct AgentRunMetrics {
    /// Difference between the largest and smallest observed timestamp.
    pub duration_ms: Option<i64>,
    /// Sum of all input and output token counts found.
    pub total_tokens: Option<i64>,
    /// Decimal text of the summed cost, present only when positive.
    pub cost_usd: Option<String>,
    /// Number of lines that parsed as JSON.
    pub message_count: Option<i64>,
}

/// Ghost image of [`AgentRunMetrics`].
pub struct MetricsView {
    pub duration_ms: Option<int>,
    pub total_tokens: Option<int>,
    pub cost_usd: Option<Seq<char>>,
    pub message_count: Option<int>,
}

impl View for AgentRunMetrics {
    type V = MetricsView;

    open spec fn view(&self) -> MetricsView {
        MetricsView {
            duration_ms: match self.duration_ms {
                Option::None => Option::None,
                Option::Some(d) => Option::Some(d as int),
            },
            total_tokens: match self.total_tokens {
                Option::None => Option::None,
                Option::Some(t) => Option::Some(t as int),
            },
            cost_usd: match self.cost_usd {
                Option::None => Option::None,
                Option::Some(c) => Option::Some(c@),
            },
            message_count: match self.message_count {
                Option::None => Option::None,
                Option::Some(c) => Option::Some(c as int),
            },
        }
    }
}

/// The summary that a given sequence of lines folds to.
pub open spec fn metrics_spec(ls: Seq<Seq<char>>) -> MetricsView {
    let st = agg(ls);
    MetricsView {
        duration_ms: match (st.min_ts, st.max_ts) {
            (Option::Some(a), Option::Some(b)) => Option::Some(sat_sub_spec(b, a)),
            _ => Option::None,
        },
        total_tokens: if st.tokens > 0 {
            Option::Some(st.tokens)
        } else {
            Option::None
        },
        cost_usd: if cost_pos(st.cost) {
            Option::Some(st.cost)
        } else {
            Option::None
        },
        message_count: if st.count > 0 {
            Option::Some(st.count)
        } else {
            Option::None
        },
    }
}

impl AgentRunMetrics {
    /// Folds a line-delimited JSON log into a metrics summary.
    ///
    /// Every line is read independently; malformed lines contribute nothing.
    /// Token counts are integer sums clamped at the 64-bit signed range;
    /// the cost is the IEEE-754 double sum of all `cost` fields; the
    /// duration is the span between the smallest and largest timestamps.
    /// Each field is absent exactly where the log showed nothing for it:
    /// no parseable line, a token sum of zero or less, a cost not above
    /// zero, or no timestamp at all.
    pub fn from_jsonl(jsonl_content: &str) -> (r: AgentRunMetrics)
        ensures
            r@ == metrics_spec(text::lines_spec(jsonl_content@)),
            text::lines_spec(jsonl_content@).len() == 0 ==> r.cost_usd is None,
    {
        let ls = text::lines(jsonl_content);
        let ghost lsv = ls.deep_view();
        let mut tokens: i64 = 0;
        let mut cost: String = new_cost_zero();
        let mut count: i64 = 0;
        let mut min_ts: Option<i64> = None;
        let mut max_ts: Option<i64> = None;
        let n = ls.len();
        let mut i: usize = 0;
        proof {
            assert(lsv.subrange(0, 0) =~= Seq::<Seq<char>>::empty());
        }
        while i < n
            invariant
                0 <= i <= n,
                n == lsv.len(),
                lsv == ls.deep_view(),
                ({
                    let st = agg(lsv.subrange(0, i as int));
                    &&& tokens as int == st.tokens
                    &&& cost@ == st.cost
                    &&& count as int == st.count
                    &&& (match (min_ts, st.min_ts) {
                        (Option::None, Option::None) => true,
                        (Option::Some(a), Option::Some(b)) => a as int == b,
                        _ => false,
                    })
                    &&& (match (max_ts, st.max_ts) {
                        (Option::None, Option::None) => true,
                        (Option::Some(a), Option::Some(b)) => a as int == b,
                        _ => false,
                    })
                }),
            decreases n - i,
        {
            let ghost pre = lsv.subrange(0, i as int);
            proof {
                assert(lsv.subrange(0, i + 1).drop_last() =~= pre);
                assert(lsv.subrange(0, i + 1).last() == lsv[i as int]);
                assert(ls[i as int]@ == lsv[i as int]);
            }
            let line = &ls[i];
            match read_event(line.as_str()) {
                Option::Some(e) => {
                    if let Option::Some(x) = e.input_tokens {
                        tokens = sat_add(tokens, x);
                    }
                    if let Option::Some(x) = e.output_tokens {
                        tokens = sat_add(tokens, x);
                    }
                    if let Option::Some(c) = &e.cost {
                        cost = add_costs(cost.as_str(), c.as_str());
                    }
                    if let Option::Some(t) = e.timestamp_ms {
                        min_ts = match min_ts {
                            Option::None => Option::Some(t),
                            Option::Some(m) => Option::Some(
                                if t < m {
                                    t
                                } else {
                                    m
                                },
                            ),
                        };
                        max_ts = match max_ts {
                            Option::None => Option::Some(t),
                            Option::Some(m) => Option::Some(
                                if t > m {
                                    t
                                } else {
                                    m
                                },
                            ),
                        };
                    }
                    count = sat_add(count, 1);
                },
                Option::None => {},
            }
            i = i + 1;
        }
        proof {
            assert(lsv.subrange(0, n as int) =~= lsv);
        }
        let duration_ms = match (min_ts, max_ts) {
            (Option::Some(a), Option::Some(b)) => Option::Some(sat_sub(b, a)),
            _ => Option::None,
        };
        let total_tokens = if tokens > 0 {
            Option::Some(tokens)
        } else {
            Option::None
        };
        let cost_usd = if cost_positive(cost.as_str()) {
            Option::Some(cost)
        } else {
            Option::None
        };
        let message_count = if count > 0 {
            Option::Some(count)
        } else {
            Option::None
        };
        AgentRunMetrics { duration_ms, total_tokens, cost_usd, message_count }
    }
}

/// The starting cost text.
fn new_cost_zero() -> (r: String)
    ensures
        r@ == seq!['0'],
{
    proof {
        reveal_strlit("0");
        assert("0"@ =~= seq!['0']);
    }
    String::from_str("0")
}

/// A line that yields no event never changes what a log folds to: inserting
/// it anywhere in the line sequence leaves the summary as it was.
pub proof fn lemma_malformed_line_ignored(ls: Seq<Seq<char>>, i: int, bad: Seq<char>)
    requires
        0 <= i <= ls.len(),
        event_of(bad) is None,
    ensures
        agg(ls.insert(i, bad)) == agg(ls),
        metrics_spec(ls.insert(i, bad)) == metrics_spec(ls),
    decreases ls.len(),
{
    let ext = ls.insert(i, bad);
    if i == ls.len() {
        assert(ext.drop_last() =~= ls);
        assert(ext.last() == bad);
    } else {
        assert(ext.drop_last() =~= ls.drop_last().insert(i, bad));
        assert(ext.last() == ls.last());
        lemma_malformed_line_ignored(ls.drop_last(), i, bad);
    }
}

} // verus!

verus! {

/// One recorded execution of an agent.
pub struct AgentRun {
    pub id: Option<i64>,
    pub agent_id: i64,
    pub agent_name: String,
    pub agent_icon: String,
    pub task: String,
    pub model: String,
    pub project_path: String,
    pub session_id: String,
    pub status: String,
    pub pid: Option<u32>,
    pub process_started_at: Option<String>,
    pub created_at: String,
    pub completed_at: Option<String>,
}

/// A run together with the metrics and raw log computed for it, where its
/// log could be read.
pub struct AgentRunWithMetrics {
    pub run: AgentRun,
    pub metrics: Option<AgentRunMetrics>,
    pub output: Option<String>,
}

/// Pairs a run with the summary of its log. With log text, the metrics are
/// the fold of that text and the text is kept as the output; without, both
/// are absent — an unreadable log degrades, it does not fail.
pub fn get_agent_run_with_metrics(run: AgentRun, output: Option<String>) -> (r:
    AgentRunWithMetrics)
    ensures
        r.run == run,
        match output {
            Option::Some(content) => (r.metrics matches Option::Some(m) && m@ == metrics_spec(
                text::lines_spec(content@),
            )) && r.output == Some(content),
            Option::None => r.metrics is None && r.output is None,
        },
{
    match output {
        Option::Some(content) => {
            let m = AgentRunMetrics::from_jsonl(content.as_str());
            AgentRunWithMetrics { run, metrics: Option::Some(m), output: Option::Some(content) }
        },
        Option::None => AgentRunWithMetrics {
            run,
            metrics: Option::None,
            output: Option::None,
        },
    }
}

/// A slash becomes a hyphen; everything else stays.
pub open spec fn dash_for_slash(c: char) -> char {
    if c == '/' {
        '-'
    } else {
        c
    }
}

/// Encodes a project path as the log store's directory name: every slash
/// becomes a hyphen.
pub fn encode_project_path(project_path: &str) -> (r: String)
    ensures
        r@ == project_path@.map_values(|c: char| dash_for_slash(c)),
{
    let ghost mapped = project_path@.map_values(|c: char| dash_for_slash(c));
    let n = project_path.unicode_len();
    let mut out = String::new();
    let mut i: usize = 0;
    proof {
        assert(out@ =~= mapped.subrange(0, 0));
    }
    while i < n
        invariant
            0 <= i <= n,
            n == project_path@.len(),
            mapped == project_path@.map_values(|c: char| dash_for_slash(c)),
            out@ == mapped.subrange(0, i as int),
        decreases n - i,
    {
        let ch = project_path.get_char(i);
        let mapped_ch = if ch == '/' {
            '-'
        } else {
            ch
        };
        text::push_char(&mut out, mapped_ch);
        proof {
            assert(out@ =~= mapped.subrange(0, i + 1));
        }
        i = i + 1;
    }
    proof {
        assert(mapped.subrange(0, n as int) =~= mapped);
    }
    out
}

/// The file name a session's log is stored under.
pub fn session_file_name(session_id: &str) -> (r: String)
    ensures
        r@ == session_id@ + ".jsonl"@,
{
    let mut out = session_id.to_owned();
    text::push_str(&mut out, ".jsonl");
    out
}

/// The parsed values of the parseable lines, in line order.
pub open spec fn session_values(ls: Seq<Seq<char>>) -> Seq<serde_json::Value>
    decreases ls.len(),
{
    if ls.len() == 0 {
        Seq::<serde_json::Value>::empty()
    } else if event_of(ls.last()) is Some {
        session_values(ls.drop_last()).push(json_of(ls.last()))
    } else {
        session_values(ls.drop_last())
    }
}

} // verus!

verus! {

/// The JSON value type of the outside parser, opaque to this library.
#[verifier::external_type_specification]
#[verifier::external_body]
pub struct ExValue(serde_json::Value);

/// The JSON value a log line parses to. The value is opaque; the name says
/// only that the same line always parses to the same value.
pub uninterp spec fn json_of(line: Seq<char>) -> serde_json::Value;

/// Relies on `serde_json::from_str::<serde_json::Value>`: parses one log
/// line, discarding the parse error. It succeeds exactly where reading an
/// event from the line does: both stand or fall with the same parse.
#[verifier::external_body]
fn parse_json_line(line: &str) -> (r: Option<serde_json::Value>)
    ensures
        match r {
            Some(v) => event_of(line@) is Some && v == json_of(line@),
            None => event_of(line@) is None,
        },
{
    serde_json::from_str(line).ok()
}

/// The parsed JSON values of a session log, one per parseable line, in line
/// order; lines that do not parse are skipped.
pub fn load_session_history(content: &str) -> (r: Vec<serde_json::Value>)
    ensures
        r@ == session_values(text::lines_spec(content@)),
{
    let ls = text::lines(content);
    let ghost lsv = ls.deep_view();
    let mut out: Vec<serde_json::Value> = Vec::new();
    let n = ls.len();
    let mut i: usize = 0;
    proof {
        assert(lsv.subrange(0, 0) =~= Seq::<Seq<char>>::empty());
        assert(out@ =~= session_values(lsv.subrange(0, 0)));
    }
    while i < n
        invariant
            0 <= i <= n,
            n == lsv.len(),
            lsv == ls.deep_view(),
            out@ == session_values(lsv.subrange(0, i as int)),
        decreases n - i,
    {
        proof {
            assert(lsv.subrange(0, i + 1).drop_last() =~= lsv.subrange(0, i as int));
            assert(lsv.subrange(0, i + 1).last() == lsv[i as int]);
            assert(ls[i as int]@ == lsv[i as int]);
        }
        match parse_json_line(ls[i].as_str()) {
            Option::Some(v) => {
                out.push(v);
            },
            Option::None => {},
        }
        i = i + 1;
    }
    proof {
        assert(lsv.subrange(0, n as int) =~= lsv);
    }
    out
}

} // verus!
