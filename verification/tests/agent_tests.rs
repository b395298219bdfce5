use lsend::agent::{print, AgentCommand};

#[test]
fn overview_lists_every_topic() {
    let text = print(None);
    for topic in ["scan", "send", "receive", "errors", "eval"] {
        assert!(text.contains(topic), "missing {topic}");
    }
    assert!(print(Some(AgentCommand::Errors)).contains("3  port already in use"));
    assert!(print(Some(AgentCommand::Scan)).contains("\"command\": \"scan\""));
}
