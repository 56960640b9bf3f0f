use process_gateway::command::{CommandSpec, EnvVar};
use process_gateway::tasks::{model_listing, model_names, script_task};

fn var(name: &str, value: &str) -> EnvVar {
    EnvVar { name: name.to_string(), value: value.to_string() }
}

#[test]
fn new_command_has_one_candidate_and_nothing_else() {
    let spec = CommandSpec::new("tool");
    assert_eq!(spec.fallback_count(), 0);
    assert_eq!(spec.candidate(0), Some(&"tool".to_string()));
    assert_eq!(spec.candidate(1), None);
    assert_eq!(spec.args(), &Vec::<String>::new());
    assert_eq!(spec.env_vars(), &Vec::<EnvVar>::new());
    assert_eq!(spec.input_bytes(), None);
}

#[test]
fn builders_add_in_order() {
    let spec = CommandSpec::new("a")
        .fallback("b")
        .fallback("c")
        .arg("-x")
        .arg("file name")
        .env("K", "1")
        .env("L", "2")
        .env("K", "3")
        .input(vec![1, 2, 3]);
    assert_eq!(spec.fallback_count(), 2);
    assert_eq!(spec.candidate(0), Some(&"a".to_string()));
    assert_eq!(spec.candidate(1), Some(&"b".to_string()));
    assert_eq!(spec.candidate(2), Some(&"c".to_string()));
    assert_eq!(spec.candidate(3), None);
    assert_eq!(spec.candidate(usize::MAX), None);
    assert_eq!(spec.args(), &vec!["-x".to_string(), "file name".to_string()]);
    assert_eq!(spec.env_vars(), &vec![var("K", "1"), var("L", "2"), var("K", "3")]);
    assert_eq!(spec.input_bytes(), Some(&vec![1, 2, 3]));
}

#[test]
fn later_input_replaces_earlier_input() {
    let spec = CommandSpec::new("a").input(vec![1]).input(vec![2, 3]);
    assert_eq!(spec.input_bytes(), Some(&vec![2, 3]));
}

#[test]
fn script_task_runs_the_script_with_the_prompt_on_standard_input() {
    let spec = script_task("summarise: größe", "llama3.2");
    assert_eq!(spec.fallback_count(), 1);
    assert_eq!(spec.candidate(0), Some(&"python3".to_string()));
    assert_eq!(spec.candidate(1), Some(&"python".to_string()));
    assert_eq!(spec.args(), &vec!["../runner.py".to_string(), "llama3.2".to_string()]);
    assert_eq!(spec.env_vars(), &vec![var("PYTHONIOENCODING", "utf-8")]);
    assert_eq!(spec.input_bytes(), Some(&"summarise: größe".as_bytes().to_vec()));
}

#[test]
fn script_task_writes_an_empty_prompt_too() {
    let spec = script_task("", "m");
    assert_eq!(spec.input_bytes(), Some(&Vec::new()));
}

#[test]
fn model_listing_asks_the_tool_for_its_list() {
    let spec = model_listing();
    assert_eq!(spec.fallback_count(), 0);
    assert_eq!(spec.candidate(0), Some(&"ollama".to_string()));
    assert_eq!(spec.args(), &vec!["list".to_string()]);
    assert_eq!(spec.env_vars(), &Vec::<EnvVar>::new());
    assert_eq!(spec.input_bytes(), None);
}

#[test]
fn model_names_reads_the_listing() {
    let listing = "NAME              ID      SIZE\n\
                   qwen:latest       1a2b    4 GB\n\
                   llava:13b         3c4d    8 GB\n";
    assert_eq!(model_names(listing), vec!["llava:13b".to_string(), "qwen".to_string()]);
    assert_eq!(model_names(""), Vec::<String>::new());
}
