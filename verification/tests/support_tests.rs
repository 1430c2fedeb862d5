use extension_update::channel::{
    channel_db_url, get_data_channel_value_from_env, parse_channel_map,
};
use extension_update::middleware::AuthMiddleware;
use extension_update::text::split_chars;
use extension_update::worker::{ActorWorker, DeliveryMessage, MyPayload, BATCH_SIZE};

fn event(n: i32) -> MyPayload {
    MyPayload {
        cadence: "typical".to_string(),
        channel: "release".to_string(),
        country_code: "TH".to_string(),
        metric_name: "m".to_string(),
        metric_value: n,
        platform: "linux".to_string(),
        version: "1.0.0".to_string(),
        woi: 1,
        wos: None,
        yoi: 2024,
        yos: 12,
    }
}

fn pairs(entries: &[(String, String)]) -> Vec<(&str, &str)> {
    entries.iter().map(|(k, v)| (k.as_str(), v.as_str())).collect()
}

#[test]
fn text_is_split_at_every_separator() {
    assert_eq!(split_chars("a,b,c", ','), vec!["a", "b", "c"]);
    assert_eq!(split_chars("", ','), vec![""]);
    assert_eq!(split_chars(",", ','), vec!["", ""]);
    assert_eq!(split_chars("a,,b,", ','), vec!["a", "", "b", ""]);
    assert_eq!(split_chars("é=ü", '='), vec!["é", "ü"]);
}

#[test]
fn channel_map_is_read_entry_by_entry() {
    let map = parse_channel_map("slow=mos,typical=wos,express=dtos").unwrap();
    assert_eq!(pairs(&map), vec![("slow", "mos"), ("typical", "wos"), ("express", "dtos")]);
    assert_eq!(pairs(&parse_channel_map("").unwrap()), Vec::<(&str, &str)>::new());
    assert_eq!(pairs(&parse_channel_map(",a=b,,").unwrap()), vec![("a", "b")]);
    assert_eq!(pairs(&parse_channel_map("a=b=c").unwrap()), vec![("a", "b")]);
    assert_eq!(pairs(&parse_channel_map("a=,=b").unwrap()), vec![("a", ""), ("", "b")]);
}

#[test]
fn channel_entry_without_a_value_spoils_the_map() {
    assert!(parse_channel_map("a=b,c").is_none());
    assert!(parse_channel_map("c").is_none());
    assert!(get_data_channel_value_from_env(Some("broken"), "k", "k=v", "fallback").is_none());
}

#[test]
fn channel_value_is_looked_up_under_the_key() {
    assert_eq!(
        get_data_channel_value_from_env(None, "p3a", "p3a=p3a_db", "main"),
        Some("p3a_db".to_string())
    );
    assert_eq!(
        get_data_channel_value_from_env(Some("x=1,p3a=first,p3a=last"), "p3a", "p3a=p3a_db", "main"),
        Some("last".to_string())
    );
    assert_eq!(
        get_data_channel_value_from_env(Some("x=1"), "p3a", "p3a=p3a_db", "main"),
        Some("main".to_string())
    );
    assert_eq!(
        get_data_channel_value_from_env(Some(""), "p3a", "p3a=p3a_db", "main"),
        Some("main".to_string())
    );
}

#[test]
fn database_url_ends_in_the_database_name() {
    assert_eq!(channel_db_url("postgres://host", "p3a_db"), "postgres://host/p3a_db");
    assert_eq!(channel_db_url("", ""), "/");
}

#[test]
fn request_passes_with_the_expected_key_only() {
    let guard = AuthMiddleware::new();
    assert!(guard.authorized("secret", Some("secret")));
    assert!(!guard.authorized("secret", Some("Secret")));
    assert!(!guard.authorized("secret", Some("")));
    assert!(!guard.authorized("secret", None));
    assert!(guard.authorized("", Some("")));
}

#[test]
fn worker_hands_out_a_batch_at_one_hundred_events() {
    let mut worker = ActorWorker::new();
    for n in 0..99 {
        assert!(worker.handle(DeliveryMessage(event(n))).is_none());
    }
    assert_eq!(worker.buffer.len(), 99);
    let batch = worker.handle(DeliveryMessage(event(99))).expect("a full batch");
    assert_eq!(batch.len(), BATCH_SIZE);
    assert_eq!(batch.len(), 100);
    let values: Vec<i32> = batch.iter().map(|e| e.metric_value).collect();
    assert_eq!(values, (0..100).collect::<Vec<i32>>());
    assert!(worker.buffer.is_empty());
    assert!(worker.handle(DeliveryMessage(event(100))).is_none());
    assert_eq!(worker.buffer.len(), 1);
}

#[test]
fn worker_empties_a_buffer_that_was_filled_beyond_a_batch() {
    let mut worker = ActorWorker { buffer: (0..150).map(event).collect() };
    let batch = worker.handle(DeliveryMessage(event(150))).expect("a batch");
    assert_eq!(batch.len(), 151);
    assert!(worker.buffer.is_empty());
}
