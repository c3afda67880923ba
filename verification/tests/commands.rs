use ultramcp::executor::{init_ultramcp_commands, UltraMCPExecutor};
use ultramcp::health::parse_health_output;
use ultramcp::plan::{
    debate_id_for, optimize_costs, plan_cod_debate, plan_health_check, plan_local_chat,
    plan_local_models, plan_local_status, start_model_message, stop_model_message, u64_to_decimal,
};

#[test]
fn executor_defaults_to_fixed_root() {
    let e = UltraMCPExecutor::new();
    assert_eq!(e.base_path, "/root/ultramcp");
    let i = init_ultramcp_commands();
    assert_eq!(i.base_path, "/root/ultramcp");
}

#[test]
fn executor_accepts_injected_root() {
    let e = UltraMCPExecutor::with_base_path("/tmp/fixture".to_string());
    assert_eq!(e.base_path, "/tmp/fixture");
}

#[test]
fn debate_plan_builds_mode_target_and_topic_token() {
    let p = plan_cod_debate("Climate policy", "hybrid");
    assert_eq!(p.command, "cod-hybrid");
    assert_eq!(p.args, vec!["TOPIC=Climate policy".to_string()]);
}

#[test]
fn local_chat_plan_builds_text_token() {
    let p = plan_local_chat("hello");
    assert_eq!(p.command, "local-chat");
    assert_eq!(p.args, vec!["TEXT=hello".to_string()]);
}

#[test]
fn argument_free_plans_name_their_targets() {
    assert_eq!(plan_local_models().command, "local-models");
    assert!(plan_local_models().args.is_empty());
    assert_eq!(plan_local_status().command, "local-status");
    assert!(plan_local_status().args.is_empty());
    assert_eq!(plan_health_check().command, "health-check");
    assert!(plan_health_check().args.is_empty());
}

#[test]
fn decimal_rendering_is_exact() {
    assert_eq!(u64_to_decimal(0), "0");
    assert_eq!(u64_to_decimal(7), "7");
    assert_eq!(u64_to_decimal(1234567890), "1234567890");
    assert_eq!(u64_to_decimal(u64::MAX), "18446744073709551615");
}

#[test]
fn debate_id_embeds_the_time() {
    assert_eq!(debate_id_for(1705315800), "debate_1705315800");
    assert_eq!(debate_id_for(0), "debate_0");
}

#[test]
fn model_lifecycle_messages() {
    assert_eq!(start_model_message("qwen-25-14b"), "Model qwen-25-14b start initiated");
    assert_eq!(stop_model_message("llama-31-8b"), "Model llama-31-8b stop initiated");
}

#[test]
fn optimize_costs_known_strategies_succeed() {
    assert_eq!(optimize_costs("prefer_local"), Ok("Local model preference enabled".to_string()));
    assert_eq!(optimize_costs("batch_requests"), Ok("Request batching enabled".to_string()));
    assert_eq!(optimize_costs("cache_results"), Ok("Result caching enabled".to_string()));
}

#[test]
fn optimize_costs_unknown_strategy_fails() {
    assert_eq!(optimize_costs("unknown"), Err("Unknown optimization type".to_string()));
    assert_eq!(optimize_costs(""), Err("Unknown optimization type".to_string()));
}

#[test]
fn health_report_has_fixed_entries_in_order() {
    let v = parse_health_output("anything the tool printed").expect("health report is total");
    let expected = vec![
        ("overall".to_string(), "healthy".to_string()),
        ("local_models".to_string(), "5 active".to_string()),
        ("ollama_service".to_string(), "running".to_string()),
        ("disk_space".to_string(), "sufficient".to_string()),
        ("memory_usage".to_string(), "normal".to_string()),
    ];
    assert_eq!(v, expected);
}
