use sapient::transcript::{seeded_history, ChatMessage, Role, StreamedReply, Transcript};

fn view(msgs: &[ChatMessage]) -> Vec<(Role, String)> {
    msgs.iter().map(|m| (m.role, m.content.clone())).collect()
}

#[test]
fn seeding_skips_missing_and_empty_prompts() {
    assert!(seeded_history(&None).is_empty());
    assert!(seeded_history(&Some(String::new())).is_empty());
    let h = seeded_history(&Some("be brief".to_string()));
    assert_eq!(view(&h), vec![(Role::System, "be brief".to_string())]);
}

#[test]
fn messages_with_does_not_commit() {
    let t = Transcript::new(Some("sys".to_string()));
    let msgs = t.messages_with("hi");
    assert_eq!(
        view(&msgs),
        vec![(Role::System, "sys".to_string()), (Role::User, "hi".to_string())]
    );
    assert_eq!(t.len(), 1);
}

#[test]
fn commit_turn_appends_user_then_assistant() {
    let mut t = Transcript::new(None);
    t.commit_turn("hi", "hello");
    t.commit_turn("again", "sure");
    assert_eq!(t.len(), 4);
    assert_eq!(t.entry_at(0).unwrap(), "user\thi");
    assert_eq!(t.entry_at(1).unwrap(), "assistant\thello");
    assert_eq!(t.entry_at(3).unwrap(), "assistant\tsure");
    assert!(t.entry_at(4).is_none());
}

#[test]
fn reset_reseeds_the_system_prompt() {
    let mut t = Transcript::new(Some("rules".to_string()));
    t.commit_turn("q", "a");
    assert_eq!(t.len(), 3);
    t.reset();
    assert_eq!(t.len(), 1);
    assert_eq!(t.entry_at(0).unwrap(), "system\trules");
}

#[test]
fn streamed_reply_accumulates_raw_and_escapes_fragments() {
    let mut r = StreamedReply::new();
    assert_eq!(r.accept("Hel"), "Hel");
    assert_eq!(r.accept("lo\0"), "lo\\0");
    assert_eq!(r.as_str(), "Hello\0");
}

#[test]
fn committed_turn_is_the_sent_messages_plus_the_reply() {
    let mut t = Transcript::new(Some("sys".to_string()));
    t.commit_turn("first", "one");
    let sent = view(&t.messages_with("second"));
    t.commit_turn("second", "two");
    let mut expected = sent.clone();
    expected.push((Role::Assistant, "two".to_string()));
    let got: Vec<(Role, String)> = (0..t.len())
        .map(|i| {
            let line = t.entry_at(i).unwrap();
            let (role, content) = line.split_once('\t').unwrap();
            let role = match role {
                "system" => Role::System,
                "user" => Role::User,
                _ => Role::Assistant,
            };
            (role, content.to_string())
        })
        .collect();
    assert_eq!(got, expected);
}
