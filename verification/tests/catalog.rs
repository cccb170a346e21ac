use ring_agent::catalog::ProviderKind;
use ring_agent::providers::added;

#[test]
fn added_providers_are_openai_compatible() {
    let all = vec![
        added::alibaba::catalog_entry(),
        added::alibaba_token_plan_cn::catalog_entry(),
        added::azure::catalog_entry(),
        added::baseten::catalog_entry(),
        added::digitalocean::catalog_entry(),
        added::github_copilot::catalog_entry(),
        added::gitlab::catalog_entry(),
        added::gmi_cloud::catalog_entry(),
        added::google_vertex::catalog_entry(),
        added::helicone::catalog_entry(),
        added::io_net::catalog_entry(),
        added::kilo::catalog_entry(),
        added::kimi_coding::catalog_entry(),
        added::meta::catalog_entry(),
        added::nebius::catalog_entry(),
        added::ollama_cloud::catalog_entry(),
        added::ovhcloud::catalog_entry(),
        added::qwen_token_plan::catalog_entry(),
        added::sap_ai_core::catalog_entry(),
        added::scaleway::catalog_entry(),
        added::snowflake_cortex::catalog_entry(),
        added::stackit::catalog_entry(),
        added::three02ai::catalog_entry(),
        added::venice::catalog_entry(),
        added::zenmux::catalog_entry(),
    ];
    for e in &all {
        assert_eq!(e.kind, ProviderKind::OpenAiCompatible);
        assert!(e.api_key.is_empty());
        assert!(e.extra_body.is_none());
    }
}

#[test]
fn some_entries_in_detail() {
    let e = added::alibaba::catalog_entry();
    assert_eq!(e.name, "Alibaba");
    assert_eq!(e.base_url.as_deref(), Some("https://dashscope-intl.aliyuncs.com/compatible-mode/v1"));
    assert_eq!(e.api_key_env.as_deref(), Some("ALIBABA_API_KEY"));
    assert_eq!(e.default_model.as_deref(), Some("qwen-plus"));
    let e = added::azure::catalog_entry();
    assert_eq!(e.base_url, None);
    assert_eq!(e.default_model.as_deref(), Some("gpt-4o"));
    let e = added::three02ai::catalog_entry();
    assert_eq!(e.name, "302.AI");
    assert_eq!(e.default_model, None);
}

