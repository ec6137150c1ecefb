use rtop::collectors::database::{container_credentials, env_overrides, extract_container_host_port, extract_port};
use rtop::models::DatabaseType;

#[test]
fn test_extract_port() {
    assert_eq!(extract_port("postgres -p 5433", DatabaseType::PostgreSQL), 5433);
    assert_eq!(extract_port("mysqld -P 3307", DatabaseType::MySqlMariaDb), 3307);
    assert_eq!(extract_port("postgres --port=5434", DatabaseType::PostgreSQL), 5434);
    assert_eq!(extract_port("postgres --port 5435", DatabaseType::PostgreSQL), 5435);
    assert_eq!(extract_port("postgres", DatabaseType::PostgreSQL), 5432);
}

#[test]
fn test_extract_container_host_port() {
    let ports = vec![
        "0.0.0.0:5433->5432/tcp".to_string(),
        "127.0.0.1:3307->3306/tcp".to_string(),
        "5432/tcp".to_string(),
    ];
    assert_eq!(extract_container_host_port(&ports, DatabaseType::PostgreSQL), 5433);
    assert_eq!(extract_container_host_port(&ports, DatabaseType::MySqlMariaDb), 3307);

    let empty_ports: Vec<String> = vec![];
    assert_eq!(extract_container_host_port(&empty_ports, DatabaseType::PostgreSQL), 5432);
    assert_eq!(extract_container_host_port(&empty_ports, DatabaseType::MySqlMariaDb), 3306);
}

#[test]
fn test_poll_database_container_env_parsing() {
    let env_vars = vec![
        "MYSQL_DATABASE=v".to_string(),
        "MYSQL_ROOT_PASSWORD=root_pass".to_string(),
    ];
    let c = env_overrides(&env_vars, DatabaseType::MySqlMariaDb);
    assert_eq!(c.user, None);
    assert_eq!(c.password, Some("root_pass".to_string()));
    assert_eq!(c.dbname, Some("v".to_string()));
}

#[test]
fn mysql_user_defaults_to_root() {
    let env_vars = vec!["MYSQL_PASSWORD = secret ".to_string(), "OTHER=1".to_string()];
    let c = container_credentials(&env_vars, DatabaseType::MySqlMariaDb);
    assert_eq!(c.user, Some("root".to_string()));
    assert_eq!(c.password, Some("secret".to_string()));
    assert_eq!(c.dbname, None);
}

#[test]
fn postgres_credentials_later_entries_win() {
    let env_vars = vec![
        "POSTGRES_USER=vox".to_string(),
        "POSTGRES_PASSWORD=a=b".to_string(),
        "POSTGRES_DB=first".to_string(),
        "POSTGRES_DB=second".to_string(),
        "MYSQL_USER=ignored".to_string(),
        "NOEQUALS".to_string(),
    ];
    let c = container_credentials(&env_vars, DatabaseType::PostgreSQL);
    assert_eq!(c.user, Some("vox".to_string()));
    assert_eq!(c.password, Some("a=b".to_string()));
    assert_eq!(c.dbname, Some("second".to_string()));
    let none = container_credentials(&[], DatabaseType::PostgreSQL);
    assert_eq!(none.user, None);
}

#[test]
fn extract_port_ignores_unparsable_values() {
    assert_eq!(extract_port("postgres -p notaport", DatabaseType::PostgreSQL), 5432);
    assert_eq!(extract_port("mysqld --port=3310", DatabaseType::MySqlMariaDb), 3310);
    assert_eq!(extract_port("mysqld", DatabaseType::MySqlMariaDb), 3306);
}
