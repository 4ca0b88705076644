use valeris::detectors::dockerfile::document::{EnvVar, Instruction, Stage};
use valeris::detectors::dockerfile::instruction_utils::{
    find_last_user_instruction, get_instruction_kind, get_line_number, instruction_to_map,
    misc_fields, user_of,
};

fn from_ins(image: &str, tag: Option<&str>, offset: usize) -> Instruction {
    Instruction::From {
        image: image.to_string(),
        tag: tag.map(|t| t.to_string()),
        offset,
    }
}

fn run_ins(command: &str, offset: usize) -> Instruction {
    Instruction::Run { command: command.to_string(), offset }
}

fn misc_ins(name: &str, arguments: &str, offset: usize) -> Instruction {
    Instruction::Misc {
        instruction: name.to_string(),
        arguments: arguments.to_string(),
        offset,
    }
}

fn stage_of(instructions: Vec<Instruction>) -> Stage {
    Stage { index: 0, instructions }
}

#[test]
fn test_get_instruction_kind_from() {
    // FROM nginx:1.20
    let instruction = from_ins("nginx", Some("1.20"), 0);

    assert_eq!(get_instruction_kind(&instruction), "FROM");
}

#[test]
fn test_get_instruction_kind_run() {
    // FROM nginx\nRUN apt-get update
    let stage = stage_of(vec![from_ins("nginx", None, 0), run_ins("apt-get update", 11)]);
    let instruction = &stage.instructions[1];

    assert_eq!(get_instruction_kind(instruction), "RUN");
}

#[test]
fn test_get_instruction_kind_user() {
    // FROM nginx\nUSER nobody
    let stage = stage_of(vec![from_ins("nginx", None, 0), misc_ins("USER", " nobody", 11)]);
    let instruction = &stage.instructions[1];

    assert_eq!(get_instruction_kind(instruction), "USER");
}

#[test]
fn test_instruction_to_map_from_with_tag() {
    let instruction = from_ins("nginx", Some("1.20"), 0);

    let map = instruction_to_map(&instruction);

    assert_eq!(map.get("from.tag").unwrap(), "1.20");
    assert_eq!(map.get("from.image").unwrap(), "nginx");
}

#[test]
fn test_instruction_to_map_from_without_tag() {
    let instruction = from_ins("nginx", None, 0);

    let map = instruction_to_map(&instruction);

    // Should default to "latest" when no tag specified
    assert_eq!(map.get("from.tag").unwrap(), "latest");
}

#[test]
fn test_instruction_to_map_user() {
    let stage = stage_of(vec![from_ins("nginx", None, 0), misc_ins("USER", " nobody", 11)]);
    let instruction = &stage.instructions[1];

    let map = instruction_to_map(instruction);

    assert_eq!(map.get("user").unwrap(), "nobody");
}

#[test]
fn test_instruction_to_map_expose() {
    let stage = stage_of(vec![from_ins("nginx", None, 0), misc_ins("EXPOSE", " 8080", 11)]);
    let instruction = &stage.instructions[1];

    let map = instruction_to_map(instruction);

    assert_eq!(map.get("port").unwrap(), "8080");
}

#[test]
fn test_instruction_to_map_env() {
    let stage = stage_of(vec![
        from_ins("nginx", None, 0),
        Instruction::Env {
            vars: vec![EnvVar { key: "API_KEY".to_string(), value: "secret123".to_string() }],
            offset: 11,
        },
    ]);
    let instruction = &stage.instructions[1];

    let map = instruction_to_map(instruction);

    assert_eq!(map.get("env.key").unwrap(), "API_KEY");
    assert!(map.contains_key("env.value"));
}

#[test]
fn test_get_line_number_first_line() {
    let content = "FROM nginx:1.20\nRUN apt-get update";
    let instruction = from_ins("nginx", Some("1.20"), 0);

    let line = get_line_number(&instruction, content);

    assert_eq!(line, Some(1));
}

#[test]
fn test_get_line_number_second_line() {
    let content = "FROM nginx:1.20\nRUN apt-get update";
    let instruction = run_ins("apt-get update", 16);

    let line = get_line_number(&instruction, content);

    assert_eq!(line, Some(2));
}

#[test]
fn test_get_line_number_with_empty_lines() {
    let content = "FROM nginx:1.20\n\n\nRUN apt-get update";
    let instruction = run_ins("apt-get update", 18);

    let line = get_line_number(&instruction, content);

    assert_eq!(line, Some(4));
}

#[test]
fn test_find_last_user_instruction_found() {
    // FROM nginx\nRUN echo test\nUSER nobody
    let stage = stage_of(vec![
        from_ins("nginx", None, 0),
        run_ins("echo test", 11),
        misc_ins("USER", " nobody", 25),
    ]);

    let user = find_last_user_instruction(&stage);

    assert_eq!(user, Some("nobody".to_string()));
}

#[test]
fn test_find_last_user_instruction_not_found() {
    let stage = stage_of(vec![from_ins("nginx", None, 0), run_ins("echo test", 11)]);

    let user = find_last_user_instruction(&stage);

    assert_eq!(user, None);
}

#[test]
fn test_find_last_user_instruction_multiple_users() {
    // FROM nginx\nUSER root\nRUN echo test\nUSER nobody
    let stage = stage_of(vec![
        from_ins("nginx", None, 0),
        misc_ins("USER", " root", 11),
        run_ins("echo test", 21),
        misc_ins("USER", " nobody", 35),
    ]);

    let user = find_last_user_instruction(&stage);

    // Should return the LAST user instruction
    assert_eq!(user, Some("nobody".to_string()));
}

#[test]
fn kinds_of_all_instructions() {
    assert_eq!(get_instruction_kind(&Instruction::Cmd { command: "x".into(), offset: 0 }), "CMD");
    assert_eq!(get_instruction_kind(&Instruction::Label { offset: 0 }), "LABEL");
    assert_eq!(get_instruction_kind(&Instruction::Env { vars: vec![], offset: 0 }), "ENV");
    assert_eq!(get_instruction_kind(&Instruction::Copy { sources: vec![], offset: 0 }), "COPY");
    assert_eq!(
        get_instruction_kind(&Instruction::Entrypoint { command: "x".into(), offset: 0 }),
        "ENTRYPOINT"
    );
    assert_eq!(get_instruction_kind(&Instruction::Arg { offset: 0 }), "ARG");
    assert_eq!(get_instruction_kind(&misc_ins("workdir", " /app", 0)), "WORKDIR");
    assert_eq!(get_instruction_kind(&misc_ins("Expose", " 80", 0)), "EXPOSE");
}

#[test]
fn env_gives_the_first_variable_only() {
    let ins = Instruction::Env {
        vars: vec![
            EnvVar { key: "A".to_string(), value: "1".to_string() },
            EnvVar { key: "B".to_string(), value: "2".to_string() },
        ],
        offset: 0,
    };
    let map = instruction_to_map(&ins);
    assert_eq!(map.get("env.key").unwrap(), "A");
    assert_eq!(map.get("env.value").unwrap(), "1");
    let none = instruction_to_map(&Instruction::Env { vars: vec![], offset: 0 });
    assert!(!none.contains_key("env.key"));
    assert!(!none.contains_key("env.value"));
}

#[test]
fn commands_give_the_command_field() {
    let run = instruction_to_map(&run_ins("apt-get update", 0));
    assert_eq!(run.get("command").unwrap(), "apt-get update");
    let cmd = instruction_to_map(&Instruction::Cmd { command: "[\"nginx\"]".into(), offset: 0 });
    assert_eq!(cmd.get("command").unwrap(), "[\"nginx\"]");
    let entry = instruction_to_map(&Instruction::Entrypoint { command: "sh".into(), offset: 0 });
    assert_eq!(entry.get("command").unwrap(), "sh");
    assert!(!run.contains_key("arguments"));
}

#[test]
fn other_instructions_give_their_arguments() {
    let workdir = instruction_to_map(&misc_ins("WORKDIR", " /app ", 0));
    assert_eq!(workdir.get("arguments").unwrap(), " /app ");
    assert!(!workdir.contains_key("user"));
    let user = instruction_to_map(&misc_ins("user", "\t app:app \n", 0));
    assert_eq!(user.get("user").unwrap(), "app:app");
    let expose = instruction_to_map(&misc_ins("EXPOSE", "  80/tcp 443", 0));
    assert_eq!(expose.get("port").unwrap(), "80/tcp");
    let bare = instruction_to_map(&misc_ins("EXPOSE", "   ", 0));
    assert_eq!(bare.get("port").unwrap(), "");
    let label = instruction_to_map(&Instruction::Label { offset: 0 });
    assert!(!label.contains_key("arguments"));
    let copy = instruction_to_map(&Instruction::Copy { sources: vec![".".into()], offset: 0 });
    assert!(!copy.contains_key("arguments"));
    let arg = instruction_to_map(&Instruction::Arg { offset: 0 });
    assert!(!arg.contains_key("arguments"));
}

#[test]
fn line_numbers_count_newline_bytes() {
    let content = "a\n\u{e9}\nb";
    // bytes: a \n 0xC3 0xA9 \n b
    assert_eq!(get_line_number(&run_ins("", 0), content), Some(1));
    assert_eq!(get_line_number(&run_ins("", 1), content), Some(1));
    assert_eq!(get_line_number(&run_ins("", 2), content), Some(2));
    assert_eq!(get_line_number(&run_ins("", 4), content), Some(2));
    assert_eq!(get_line_number(&run_ins("", 5), content), Some(3));
    assert_eq!(get_line_number(&run_ins("", 6), content), Some(3));
    // an offset beyond the text has no line
    assert_eq!(get_line_number(&run_ins("", 7), content), None);
    assert_eq!(get_line_number(&run_ins("", 0), ""), Some(1));
}

#[test]
fn offsets_are_read_from_every_variant() {
    assert_eq!(from_ins("a", None, 3).offset(), 3);
    assert_eq!(Instruction::Label { offset: 4 }.offset(), 4);
    assert_eq!(Instruction::Arg { offset: 5 }.offset(), 5);
    assert_eq!(Instruction::Copy { sources: vec![], offset: 6 }.offset(), 6);
    assert_eq!(misc_ins("X", "", 7).offset(), 7);
}

#[test]
fn user_instruction_is_found_in_any_case() {
    let stage = stage_of(vec![from_ins("nginx", None, 0), misc_ins("user", "  app  ", 11)]);
    assert_eq!(find_last_user_instruction(&stage), Some("app".to_string()));
    let empty = stage_of(vec![]);
    assert_eq!(find_last_user_instruction(&empty), None);
}

#[test]
fn fields_follow_the_kind_in_upper_case() {
    let user = misc_fields("USER", "  app ");
    assert_eq!(user.get("user").unwrap(), "app");
    assert!(!user.contains_key("arguments"));
    let expose = misc_fields("EXPOSE", " 80 443");
    assert_eq!(expose.get("port").unwrap(), "80");
    let other = misc_fields("VOLUME", " /data ");
    assert_eq!(other.get("arguments").unwrap(), " /data ");
    // the kind is compared as it is given
    let lower = misc_fields("user", " app");
    assert_eq!(lower.get("arguments").unwrap(), " app");
    assert!(!lower.contains_key("user"));
    assert_eq!(user_of("USER", " nobody\n"), Some("nobody".to_string()));
    assert_eq!(user_of("USER", ""), Some("".to_string()));
    assert_eq!(user_of("user", " nobody"), None);
    assert_eq!(user_of("RUN", " nobody"), None);
}
