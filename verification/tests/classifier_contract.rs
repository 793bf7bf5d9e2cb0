use channel_enrichment::classify::accept_label;
use channel_enrichment::classify::build_classifier_messages;
use channel_enrichment::classify::join_labels;
use channel_enrichment::classify::lowercase_all;
use channel_enrichment::classify::OpenAiMessage;
use channel_enrichment::enrich::classification_text;
use channel_enrichment::ChannelData;

fn labels(names: &[&str]) -> Vec<String> {
    names.iter().map(|n| n.to_string()).collect()
}

#[test]
fn accepted_labels_are_folded_members() {
    let candidates = labels(&["News", "Спорт"]);
    assert_eq!(accept_label("news", &candidates), Some("news".to_string()));
    assert_eq!(accept_label("NEWS", &candidates), Some("news".to_string()));
    assert_eq!(accept_label("  News \n", &candidates), Some("news".to_string()));
    assert_eq!(accept_label("СПОРТ", &candidates), Some("спорт".to_string()));
    assert_eq!(accept_label("politics", &candidates), None);
    assert_eq!(accept_label("", &candidates), None);
    assert_eq!(accept_label("new", &candidates), None);
}

#[test]
fn lowercase_all_folds_each() {
    let folded = lowercase_all(&labels(&["News", "RU", "Спорт"]));
    assert_eq!(folded, vec!["news".to_string(), "ru".to_string(), "спорт".to_string()]);
}

#[test]
fn join_labels_uses_comma_space() {
    assert_eq!(join_labels(&labels(&[])), "".to_string());
    assert_eq!(join_labels(&labels(&["a"])), "a".to_string());
    assert_eq!(join_labels(&labels(&["a", "b", "c"])), "a, b, c".to_string());
}

#[test]
fn message_roles() {
    let system = OpenAiMessage::system("instruction".to_string());
    assert_eq!(system.role, "system".to_string());
    assert_eq!(system.content, "instruction".to_string());
    let user = OpenAiMessage::user("question".to_string());
    assert_eq!(user.role, "user".to_string());
}

#[test]
fn classifier_messages_carry_prompts() {
    let candidates = labels(&["News", "Sports"]);
    let messages = build_classifier_messages("категория", " channel text ", &candidates);
    assert_eq!(messages.len(), 2);
    assert_eq!(messages[0].role, "system".to_string());
    assert_eq!(messages[1].role, "user".to_string());
    let expected_system = format!(
        "Ты — классификатор телеграм-каналов. Твоя задача — выбрать одно значение {} из списка. Возвращай только одно значение без пояснений.",
        "категория"
    );
    assert_eq!(messages[0].content, expected_system);
    let expected_user = format!(
        "Возможные значения: [{}]\n\nОписание канала:\n\"{}\"\n\nВыбери наиболее подходящее. Верни только одно точное значение из списка.",
        "news, sports", "channel text"
    );
    assert_eq!(messages[1].content, expected_user);
}

#[test]
fn classification_text_joins_title_and_description() {
    let rec = ChannelData {
        id: 1,
        title: Some("Title".to_string()),
        username: "u".to_string(),
        photo_element: None,
        category: None,
        description: Some("Desc".to_string()),
        subscribers: None,
        geo: None,
    };
    assert_eq!(classification_text(&rec), "Title Desc".to_string());
    let bare = ChannelData { title: None, description: None, ..rec };
    assert_eq!(classification_text(&bare), " ".to_string());
}
