//! What is said of directories and neighbouring files, on all short paths.

use matrix_adk_agent::adk::{introductions_dir, AdkEnvironment, AdkOpenAiAgentConfig};

type Config = AdkOpenAiAgentConfig<u8, bool>;

fn config(introduction_file: &str, store_file: &str) -> Config {
    Config::default_from_env(AdkEnvironment {
        openai_api_key: Some("key".to_string()),
        open_responses_base_url: None,
        open_responses_model: None,
        introductions_store_file: Some(store_file.to_string()),
        introduction_file: Some(introduction_file.to_string()),
        instruction: None,
    })
    .unwrap()
}

/// All paths of up to six characters that every system reads in the same way.
fn common_paths() -> Vec<String> {
    let mut all = vec![String::new()];
    let mut longest = all.clone();
    for _ in 0..6 {
        let mut longer = Vec::new();
        for path in &longest {
            for c in ['a', '.', '/', ':'] {
                longer.push(format!("{path}{c}"));
            }
        }
        all.extend(longer.iter().cloned());
        longest = longer;
    }
    all.retain(|path| !path.starts_with("//") && path.chars().nth(1) != Some(':'));
    all
}

fn start_len(path: &str) -> usize {
    usize::from(path.starts_with('/') || path == "." || path.starts_with("./"))
}

fn ends_in_piece(path: &str, piece: &str, n: usize) -> bool {
    match path.strip_suffix(piece) {
        Some(front) => front.len() >= n && (front.len() == n || front.ends_with('/')),
        None => false,
    }
}

fn tidied(path: &str, n: usize) -> &str {
    let mut path = path;
    while path.len() > n && (path.ends_with('/') || ends_in_piece(path, ".", n)) {
        path = &path[..path.len() - 1];
    }
    path
}

fn without_piece(path: &str, n: usize) -> &str {
    match path[n..].rfind('/') {
        Some(i) => &path[..n + i],
        None => &path[..n],
    }
}

fn parent_of(path: &str) -> Option<&str> {
    let n = start_len(path);
    let t = tidied(path, n);
    if t.len() > n {
        Some(tidied(without_piece(t, n), n))
    } else if t == "." {
        Some("")
    } else {
        None
    }
}

#[test]
fn directories_are_those_before_the_last_piece() {
    for path in common_paths() {
        let dir = introductions_dir(&config("me.md", &path));
        assert_eq!(dir.as_deref(), parent_of(&path), "{path}");
    }
}

#[test]
fn neighbours_stand_in_the_same_directory() {
    for path in common_paths() {
        let n = start_len(&path);
        let t = tidied(&path, n);
        let names_file = t.len() > n && !ends_in_piece(t, "..", n);
        let dir = if names_file { parent_of(&path).unwrap() } else { path.as_str() };
        let expected = if dir.is_empty() || dir.ends_with('/') {
            format!("{dir}INSTRUCTION.md")
        } else {
            format!("{dir}{}INSTRUCTION.md", std::path::MAIN_SEPARATOR)
        };
        assert_eq!(config(&path, "s.json").instruction_file, expected, "{path}");
    }
}
