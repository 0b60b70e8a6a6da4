use tabularis_clickhouse_plugin::connection::{
    client_key, client_url, request_database, resolve_params, ClientPool, ConnectionRequest,
};

fn empty_request() -> ConnectionRequest {
    ConnectionRequest { host: None, port: None, database: None, username: None, password: None, ssl: None }
}

#[test]
fn defaults_apply() {
    let p = resolve_params(&empty_request());
    assert_eq!(p.host, "localhost");
    assert_eq!(p.port, 8123);
    assert_eq!(p.database, "default");
    assert_eq!(p.username, "default");
    assert_eq!(p.password, "");
    assert!(!p.ssl);
    assert_eq!(client_key(&p), "http://localhost:8123'default''default'");
    assert_eq!(client_url(&p), "http://localhost:8123");
    assert_eq!(request_database(&empty_request()), "default");
}

#[test]
fn given_parameters_are_used() {
    let req = ConnectionRequest {
        host: Some("ch.example".to_string()),
        port: Some(9440),
        database: Some("analytics".to_string()),
        username: Some("me".to_string()),
        password: Some("SECRET-REDACTED".to_string()),
        ssl: Some(true),
    };
    let p = resolve_params(&req);
    assert_eq!(client_url(&p), "https://ch.example:9440");
    assert_eq!(client_key(&p), "https://ch.example:9440'me'SECRET-REDACTED'analytics'");
    assert_eq!(request_database(&req), "analytics");
}

#[test]
fn pool_reuses_the_client_of_a_connection() {
    let mut pool = ClientPool::new();
    assert_eq!(pool.len(), 0);
    let req = empty_request();
    let _ = pool.get_or_create_client(&req);
    assert_eq!(pool.len(), 1);
    let _ = pool.get_or_create_client(&req);
    assert_eq!(pool.len(), 1);
    // The URL is part of the key: TLS gets a client of its own.
    let mut tls = empty_request();
    tls.ssl = Some(true);
    let _ = pool.get_or_create_client(&tls);
    assert_eq!(pool.len(), 2);
    let mut other = empty_request();
    other.host = Some("elsewhere".to_string());
    let _ = pool.get_or_create_client(&other);
    assert_eq!(pool.len(), 3);
}

#[test]
fn keys_of_distinct_connections_differ() {
    let mut a = empty_request();
    a.database = Some("a'b".to_string());
    a.username = Some("c".to_string());
    let mut b = empty_request();
    b.database = Some("a".to_string());
    b.username = Some("b'c".to_string());
    let ka = client_key(&resolve_params(&a));
    let kb = client_key(&resolve_params(&b));
    assert_ne!(ka, kb);
    assert_eq!(ka, "http://localhost:8123'c''a\\'b'");
    let mut pool = ClientPool::new();
    let _ = pool.get_or_create_client(&a);
    let _ = pool.get_or_create_client(&b);
    assert_eq!(pool.len(), 2);
}
