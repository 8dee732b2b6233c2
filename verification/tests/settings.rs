use task_streamer::client::Client;
use task_streamer::config::{CliMatches, Config};
use task_streamer::schema::Topic;
use task_streamer::tasks::{
    combined_filter, context_name, context_query_arg, export_args, strip_trailing_newline,
};

fn no_args() -> CliMatches {
    CliMatches {
        port: None,
        port_occurrences: 0,
        bind: None,
        filter: None,
        filter_occurrences: 0,
        server: None,
        api_key: None,
    }
}

#[test]
fn topic_holds_its_fields() {
    let t = Topic::new("herp".to_string(), "derp".to_string());
    assert_eq!(t.title, "herp");
    assert_eq!(t.description, "derp");
    let d = Topic::default();
    assert_eq!(d.title, "");
    assert_eq!(d.description, "");
}

#[test]
fn server_options_fall_back_to_defaults() {
    let mut c = Config::default();
    Config::process_server_options(&mut c, &no_args());
    assert_eq!(c.server.port.as_deref(), Some("8128"));
    assert_eq!(c.server.bind, Some(vec!["127.0.0.1".to_string()]));
    assert_eq!(c.server.api_key, None);
}

#[test]
fn explicit_port_wins_over_loaded_port() {
    let mut c = Config::default();
    c.server.port = Some("9000".to_string());
    let mut m = no_args();
    m.port = Some("8200".to_string());
    m.port_occurrences = 1;
    Config::process_server_options(&mut c, &m);
    assert_eq!(c.server.port.as_deref(), Some("8200"));

    // without an explicit occurrence the loaded value stands
    let mut c = Config::default();
    c.server.port = Some("9000".to_string());
    let mut m = no_args();
    m.port = Some("8128".to_string());
    Config::process_server_options(&mut c, &m);
    assert_eq!(c.server.port.as_deref(), Some("9000"));
}

#[test]
fn bind_addresses_are_deduplicated() {
    let mut c = Config::default();
    let mut m = no_args();
    m.bind = Some(vec![
        "10.0.0.1".to_string(),
        "10.0.0.2".to_string(),
        "10.0.0.1".to_string(),
    ]);
    Config::process_server_options(&mut c, &m);
    let bound = c.server.bind.expect("bind must be set");
    assert_eq!(bound.len(), 2);
    assert!(bound.contains(&"10.0.0.1".to_string()));
    assert!(bound.contains(&"10.0.0.2".to_string()));
}

#[test]
fn loaded_bind_survives_when_none_is_given() {
    let mut c = Config::default();
    c.server.bind = Some(vec!["0.0.0.0".to_string()]);
    Config::process_server_options(&mut c, &no_args());
    assert_eq!(c.server.bind, Some(vec!["0.0.0.0".to_string()]));
}

#[test]
fn client_options_fall_back_and_override() {
    let mut c = Config::default();
    Config::process_client_options(&mut c, &no_args());
    assert_eq!(c.client.filter.as_deref(), Some("status:pending"));
    assert_eq!(c.client.server, None);
    assert_eq!(c.client.api_key, None);

    let mut m = no_args();
    m.filter = Some("project:home".to_string());
    m.filter_occurrences = 1;
    m.server = Some("http://localhost:8128".to_string());
    m.api_key = Some("Foo bar baz".to_string());
    Config::process_client_options(&mut c, &m);
    assert_eq!(c.client.filter.as_deref(), Some("project:home"));
    assert_eq!(c.client.server.as_deref(), Some("http://localhost:8128"));
    assert_eq!(c.client.api_key.as_deref(), Some("Foo bar baz"));
}

#[test]
fn client_shapes_request_values() {
    let mut c = Config::default();
    c.client.server = Some("http://localhost:8128".to_string());
    c.client.api_key = Some("Foo bar baz".to_string());
    let client = Client::new(c);
    assert_eq!(client.request_url("tasks"), "http://localhost:8128/tasks");
    assert_eq!(client.request_url("topic"), "http://localhost:8128/topic");
    assert_eq!(client.bearer_token(), "Bearer Foo bar baz");
}

#[test]
fn export_args_split_the_filter_like_a_shell() {
    let args = export_args("status:pending +work");
    assert_eq!(
        args,
        vec![
            "rc.json.array=on".to_string(),
            "rc.confirmation=off".to_string(),
            "export".to_string(),
            "status:pending".to_string(),
            "+work".to_string(),
        ]
    );
    // quoting holds words together
    let args = export_args("project:'home office' status:pending");
    assert_eq!(args[3], "project:home office");
    assert_eq!(args[4], "status:pending");
}

#[test]
fn unsplittable_filter_becomes_one_empty_argument() {
    let args = export_args("\"unclosed");
    assert_eq!(
        args,
        vec![
            "rc.json.array=on".to_string(),
            "rc.confirmation=off".to_string(),
            "export".to_string(),
            "".to_string(),
        ]
    );
}

#[test]
fn combined_filter_joins_with_a_space() {
    assert_eq!(combined_filter("status:pending", ""), "status:pending ");
    assert_eq!(
        combined_filter("status:pending", "+work"),
        "status:pending +work"
    );
}

#[test]
fn context_output_parsing() {
    assert_eq!(strip_trailing_newline(&b"work\n".to_vec()), Some(b"work".to_vec()));
    assert_eq!(strip_trailing_newline(&b"work".to_vec()), None);
    assert_eq!(strip_trailing_newline(&b"".to_vec()), None);
    assert_eq!(strip_trailing_newline(&b"\n".to_vec()), Some(b"".to_vec()));

    assert_eq!(context_name(&b"work\n".to_vec()), Some(b"work".to_vec()));
    assert_eq!(context_name(&b"\n".to_vec()), None);
    assert_eq!(context_name(&b"work".to_vec()), None);
    assert_eq!(context_name(&b"".to_vec()), None);

    assert_eq!(context_query_arg("work"), "rc.context.work");
}
