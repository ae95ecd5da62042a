use claudio_core::metrics::{
    get_agent_run_with_metrics, load_session_history, AgentRun, AgentRunMetrics,
};

fn cost_value(m: &AgentRunMetrics) -> Option<f64> {
    m.cost_usd.as_ref().map(|c| c.parse::<f64>().expect("cost text must parse"))
}

fn sample_run() -> AgentRun {
    AgentRun {
        id: None,
        agent_id: 1,
        agent_name: String::from("Test Agent"),
        agent_icon: String::from("robot"),
        task: String::from("review"),
        model: String::from("sonnet"),
        project_path: String::from("/tmp/project"),
        session_id: String::from("abc-123"),
        status: String::from("completed"),
        pid: None,
        process_started_at: None,
        created_at: String::from("2024-01-01T00:00:00Z"),
        completed_at: None,
    }
}

#[test]
fn empty_log_all_absent() {
    let m = AgentRunMetrics::from_jsonl("");
    assert_eq!(m.duration_ms, None);
    assert_eq!(m.total_tokens, None);
    assert!(m.cost_usd.is_none());
    assert_eq!(m.message_count, None);
}

#[test]
fn two_line_log_summary() {
    let log = "{\"timestamp\":\"2024-01-01T00:00:00Z\",\"usage\":{\"input_tokens\":10,\"output_tokens\":5}}\n{\"timestamp\":\"2024-01-01T00:00:10Z\",\"cost\":0.02}";
    let m = AgentRunMetrics::from_jsonl(log);
    assert_eq!(m.total_tokens, Some(15));
    assert_eq!(m.message_count, Some(2));
    assert_eq!(m.duration_ms, Some(10_000));
    let cost = cost_value(&m).expect("cost must be present");
    assert!((cost - 0.02).abs() < 1e-9);
}

#[test]
fn malformed_line_between_valid_lines() {
    let clean = "{\"timestamp\":\"2024-01-01T00:00:00Z\",\"usage\":{\"input_tokens\":10,\"output_tokens\":5}}\n{\"timestamp\":\"2024-01-01T00:00:10Z\",\"cost\":0.02}";
    let noisy = "{\"timestamp\":\"2024-01-01T00:00:00Z\",\"usage\":{\"input_tokens\":10,\"output_tokens\":5}}\nthis line is not JSON at all\n{\"timestamp\":\"2024-01-01T00:00:10Z\",\"cost\":0.02}";
    let a = AgentRunMetrics::from_jsonl(clean);
    let b = AgentRunMetrics::from_jsonl(noisy);
    assert_eq!(a.total_tokens, b.total_tokens);
    assert_eq!(a.duration_ms, b.duration_ms);
    assert_eq!(a.message_count, b.message_count);
    assert_eq!(cost_value(&a), cost_value(&b));
}

#[test]
fn nested_usage_under_message() {
    let log = "{\"message\":{\"usage\":{\"input_tokens\":7,\"output_tokens\":3}}}";
    let m = AgentRunMetrics::from_jsonl(log);
    assert_eq!(m.total_tokens, Some(10));
    assert_eq!(m.message_count, Some(1));
    assert_eq!(m.duration_ms, None);
}

#[test]
fn zero_tokens_and_zero_cost_read_as_absent() {
    let log = "{\"usage\":{\"input_tokens\":0,\"output_tokens\":0},\"cost\":0.0}";
    let m = AgentRunMetrics::from_jsonl(log);
    assert_eq!(m.total_tokens, None);
    assert!(m.cost_usd.is_none());
    assert_eq!(m.message_count, Some(1));
}

#[test]
fn single_timestamp_zero_duration() {
    let log = "{\"timestamp\":\"2024-01-01T00:00:00Z\"}";
    let m = AgentRunMetrics::from_jsonl(log);
    assert_eq!(m.duration_ms, Some(0));
}

#[test]
fn out_of_order_timestamps() {
    let log = "{\"timestamp\":\"2024-01-01T00:00:20Z\"}\n{\"timestamp\":\"2024-01-01T00:00:05Z\"}\n{\"timestamp\":\"2024-01-01T00:00:10Z\"}";
    let m = AgentRunMetrics::from_jsonl(log);
    assert_eq!(m.duration_ms, Some(15_000));
}

#[test]
fn costs_accumulate() {
    let log = "{\"cost\":0.01}\n{\"cost\":0.02}\n{\"cost\":0.03}";
    let m = AgentRunMetrics::from_jsonl(log);
    let cost = cost_value(&m).expect("cost must be present");
    assert!((cost - 0.06).abs() < 1e-9);
}

#[test]
fn run_with_metrics_pairs_output() {
    let run = sample_run();
    let log = String::from("{\"usage\":{\"input_tokens\":1,\"output_tokens\":2}}");
    let r = get_agent_run_with_metrics(run, Some(log.clone()));
    assert_eq!(r.output.as_deref(), Some(log.as_str()));
    let m = r.metrics.expect("metrics must be present with a log");
    assert_eq!(m.total_tokens, Some(3));
}

#[test]
fn run_with_metrics_degrades_without_log() {
    let run = sample_run();
    let r = get_agent_run_with_metrics(run, None);
    assert!(r.metrics.is_none());
    assert!(r.output.is_none());
    assert_eq!(r.run.session_id, "abc-123");
}

#[test]
fn session_history_skips_bad_lines() {
    let log = "{\"a\":1}\nnot json\n{\"b\":2}";
    let vals = load_session_history(log);
    assert_eq!(vals.len(), 2);
    assert_eq!(vals[0].get("a").and_then(|v| v.as_i64()), Some(1));
    assert_eq!(vals[1].get("b").and_then(|v| v.as_i64()), Some(2));
}

#[test]
fn nonpositive_token_sum_reads_as_absent() {
    let log = "{\"usage\":{\"input_tokens\":-10,\"output_tokens\":5}}";
    let m = AgentRunMetrics::from_jsonl(log);
    assert_eq!(m.total_tokens, None);
    assert_eq!(m.message_count, Some(1));
}
