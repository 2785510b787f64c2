#[test]
fn test_agent_name_env_var_parsing() {
    // Test parsing of AGENT_NAME environment variable
    let env_var = "AGENT_NAME=test_agent";
    let agent_name = env_var.strip_prefix("AGENT_NAME=").unwrap_or("unnamed");

    assert_eq!(agent_name, "test_agent");
}

#[test]
fn test_agent_name_env_var_default() {
    // Test default when AGENT_NAME is not set
    let env_var = "";
    let agent_name = if env_var.is_empty() {
        "unnamed"
    } else {
        env_var.strip_prefix("AGENT_NAME=").unwrap_or("unnamed")
    };

    assert_eq!(agent_name, "unnamed");
}

#[test]
fn test_grpc_port_env_var_parsing() {
    // Test parsing of GRPC_PORT environment variable
    let env_var = "GRPC_PORT=50051";
    let port = env_var.strip_prefix("GRPC_PORT=").unwrap_or("50051");

    assert_eq!(port, "50051");
}

#[test]
fn test_grpc_port_env_var_default() {
    // Test default when GRPC_PORT is not set
    let env_var = "";
    let port = if env_var.is_empty() {
        "50051"
    } else {
        env_var.strip_prefix("GRPC_PORT=").unwrap_or("50051")
    };

    assert_eq!(port, "50051");
}

#[test]
fn test_agent_server_name_validation() {
    // Test various agent names that should be valid
    let valid_names = vec![
        "alice",
        "bob123",
        "test_agent",
        "agent-with-dashes",
        "a",
        "very_long_agent_name_with_underscores_and_numbers_123",
    ];

    for name in valid_names {
        // Test that names can be used in various contexts
        let env_var = format!("AGENT_NAME={name}");
        let extracted_name = env_var.strip_prefix("AGENT_NAME=").unwrap();

        assert_eq!(extracted_name, name);
        assert!(!extracted_name.is_empty());
    }
}

#[test]
fn test_invalid_port_handling() {
    // Test handling of invalid port values
    let invalid_ports = vec!["", "0", "99999", "invalid", "-1", "65536"];

    for port_str in invalid_ports {
        let port_result: Result<u16, _> = port_str.parse();

        match port_result {
            Ok(port) => {
                // Port 0 is technically valid but not useful
                if port == 0 {
                    assert_eq!(port, 0);
                } else {
                    assert!(port >= 1);
                }
            }
            Err(_) => {
                // Expected for invalid strings
                assert!(
                    port_str.is_empty()
                        || port_str == "invalid"
                        || port_str == "-1"
                        || port_str == "99999"
                        || port_str == "65536"
                );
            }
        }
    }
}

#[test]
fn test_agent_logging_format() {
    // Test the logging format used by agents
    let agent_name = "test_agent";
    let port = "50051";

    let start_message = format!("Agent {agent_name} starting with port {port}");
    let awaken_message = format!("Agent {agent_name} awakening on 0.0.0.0:{port}");

    assert_eq!(start_message, "Agent test_agent starting with port 50051");
    assert_eq!(awaken_message, "Agent test_agent awakening on 0.0.0.0:50051");

    assert!(start_message.contains(agent_name));
    assert!(start_message.contains(port));
    assert!(awaken_message.contains(agent_name));
    assert!(awaken_message.contains(port));
}

#[test]
fn test_environment_variable_extraction() {
    // Test extraction of environment variables with various formats
    let env_test_cases = vec![
        ("AGENT_NAME=alice", "AGENT_NAME", Some("alice")),
        ("GRPC_PORT=50051", "GRPC_PORT", Some("50051")),
        ("INVALID_VAR=value", "AGENT_NAME", None),
        ("AGENT_NAME=", "AGENT_NAME", Some("")),
        ("=value", "AGENT_NAME", None),
        ("", "AGENT_NAME", None),
    ];

    for (env_var, key, expected) in env_test_cases {
        let prefix = format!("{key}=");
        let result = if env_var.starts_with(&prefix) {
            env_var.strip_prefix(&prefix)
        } else {
            None
        };

        assert_eq!(result, expected);
    }
}

#[test]
fn test_agent_name_edge_cases() {
    // Test edge cases for agent names
    let edge_cases = vec![
        ("", "unnamed"),  // Empty name should default to "unnamed"
        ("a", "a"),       // Single character
        ("123", "123"),   // Numeric name
        ("_", "_"),       // Special character
        ("CAPS", "CAPS"), // Uppercase
    ];

    for (input_name, expected_name) in edge_cases {
        let actual_name = if input_name.is_empty() {
            "unnamed"
        } else {
            input_name
        };

        assert_eq!(actual_name, expected_name);
    }
}
