//! What a rule can see of an instruction: its kind, its fields, its line.

use crate::detectors::dockerfile::context::Context;
use crate::detectors::dockerfile::document::{Instruction, Stage};
use crate::text::{first_token, first_word, same_text, trim, trimmed, uppercase_of};
use vstd::prelude::*;
use vstd::utf8::encode_utf8;

verus! {

/// The kind of an instruction: its name in upper case.
pub open spec fn instruction_kind(ins: Instruction) -> Seq<char> {
    match ins {
        Instruction::From { .. } => "FROM"@,
        Instruction::Run { .. } => "RUN"@,
        Instruction::Cmd { .. } => "CMD"@,
        Instruction::Label { .. } => "LABEL"@,
        Instruction::Env { .. } => "ENV"@,
        Instruction::Copy { .. } => "COPY"@,
        Instruction::Entrypoint { .. } => "ENTRYPOINT"@,
        Instruction::Arg { .. } => "ARG"@,
        Instruction::Misc { instruction, .. } => uppercase_of(instruction@),
    }
}

/// The fields of an instruction that is none of the instructions with a form
/// of their own, by its kind: `USER` gives `user`, its argument without
/// surrounding white space; `EXPOSE` gives `port`, the first word of its
/// arguments; any other kind gives `arguments`, the text after the name.
pub open spec fn misc_fields_of(kind: Seq<char>, arguments: Seq<char>) -> Map<Seq<char>, Seq<char>> {
    if kind == "USER"@ {
        Map::empty().insert("user"@, trimmed(arguments))
    } else if kind == "EXPOSE"@ {
        Map::empty().insert("port"@, first_token(arguments))
    } else {
        Map::empty().insert("arguments"@, arguments)
    }
}

/// The user that an instruction of the kind `kind` names: the argument of a
/// `USER` instruction, without surrounding white space.
pub open spec fn user_named(kind: Seq<char>, arguments: Seq<char>) -> Option<Seq<char>> {
    if kind == "USER"@ {
        Some(trimmed(arguments))
    } else {
        None
    }
}

/// The fields of an instruction that rules can test.
///
/// `FROM` gives `from.tag`, which is `latest` where no tag is written, and
/// `from.image`. `RUN`, `CMD` and `ENTRYPOINT` give `command`. `ENV` gives
/// `env.key` and `env.value` of the first variable it declares, and nothing
/// of the later ones. `USER` gives `user`, its argument without surrounding
/// white space. `EXPOSE` gives `port`, the first word of its arguments. Any
/// other instruction that is not `LABEL`, `COPY` or `ARG` gives `arguments`,
/// the text after its name. `LABEL`, `COPY` and `ARG` give no field.
pub open spec fn instruction_fields(ins: Instruction) -> Map<Seq<char>, Seq<char>> {
    match ins {
        Instruction::From { image, tag, .. } => Map::empty().insert(
            "from.tag"@,
            match tag {
                Some(t) => t@,
                None => "latest"@,
            },
        ).insert("from.image"@, image@),
        Instruction::Run { command, .. } => Map::empty().insert("command"@, command@),
        Instruction::Cmd { command, .. } => Map::empty().insert("command"@, command@),
        Instruction::Entrypoint { command, .. } => Map::empty().insert("command"@, command@),
        Instruction::Env { vars, .. } => if vars.len() > 0 {
            Map::empty().insert("env.key"@, vars[0].key@).insert("env.value"@, vars[0].value@)
        } else {
            Map::empty()
        },
        Instruction::Misc { instruction, arguments, .. } => misc_fields_of(
            uppercase_of(instruction@),
            arguments@,
        ),
        _ => Map::empty(),
    }
}

/// The number of newline bytes in `bytes`.
pub open spec fn newline_count(bytes: Seq<u8>) -> nat
    decreases bytes.len(),
{
    if bytes.len() == 0 {
        0
    } else {
        newline_count(bytes.drop_last()) + if bytes.last() == 10u8 {
            1nat
        } else {
            0nat
        }
    }
}

/// The line of `content`, counted from 1, that holds the byte at `offset`: one
/// more than the number of newline bytes before it. There is none where
/// `offset` lies beyond the end of `content`, or where the number does not fit
/// a `usize`.
pub open spec fn line_at(content: Seq<char>, offset: usize) -> Option<usize> {
    let bytes = encode_utf8(content);
    if offset <= bytes.len() && newline_count(bytes.take(offset as int)) < usize::MAX {
        Some((newline_count(bytes.take(offset as int)) + 1) as usize)
    } else {
        None
    }
}

/// The user that a list of instructions ends as: the argument of its last
/// `USER` instruction, without surrounding white space.
pub open spec fn last_user(instructions: Seq<Instruction>) -> Option<Seq<char>>
    decreases instructions.len(),
{
    if instructions.len() == 0 {
        None
    } else {
        match instructions.last() {
            Instruction::Misc { instruction, arguments, .. } => match user_named(
                uppercase_of(instruction@),
                arguments@,
            ) {
                Some(user) => Some(user),
                None => last_user(instructions.drop_last()),
            },
            _ => last_user(instructions.drop_last()),
        }
    }
}

/// The kind of an instruction: its name in upper case.
pub fn get_instruction_kind(ins: &Instruction) -> (kind: String)
    ensures
        kind@ == instruction_kind(*ins),
{
    match ins {
        Instruction::From { .. } => "FROM".to_owned(),
        Instruction::Run { .. } => "RUN".to_owned(),
        Instruction::Cmd { .. } => "CMD".to_owned(),
        Instruction::Label { .. } => "LABEL".to_owned(),
        Instruction::Env { .. } => "ENV".to_owned(),
        Instruction::Copy { .. } => "COPY".to_owned(),
        Instruction::Entrypoint { .. } => "ENTRYPOINT".to_owned(),
        Instruction::Arg { .. } => "ARG".to_owned(),
        Instruction::Misc { instruction, .. } => instruction.as_str().to_uppercase(),
    }
}

/// The fields of an instruction that is none of the instructions with a form
/// of their own. `kind` is the name of the instruction in upper case.
pub fn misc_fields(kind: &str, arguments: &str) -> (map: Context)
    ensures
        map@ == misc_fields_of(kind@, arguments@),
{
    let mut map = Context::new();
    if same_text(kind, "USER") {
        map.insert("user".to_owned(), trim(arguments));
    } else if same_text(kind, "EXPOSE") {
        map.insert("port".to_owned(), first_word(arguments));
    } else {
        map.insert("arguments".to_owned(), arguments.to_owned());
    }
    map
}

/// The user that an instruction names, if it is a `USER` instruction. `kind`
/// is the name of the instruction in upper case.
pub fn user_of(kind: &str, arguments: &str) -> (user: Option<String>)
    ensures
        match user {
            Some(name) => user_named(kind@, arguments@) == Some(name@),
            None => user_named(kind@, arguments@) is None,
        },
{
    if same_text(kind, "USER") {
        Some(trim(arguments))
    } else {
        None
    }
}

/// The fields of an instruction, as the context that predicates are evaluated
/// against.
pub fn instruction_to_map(ins: &Instruction) -> (map: Context)
    ensures
        map@ == instruction_fields(*ins),
{
    let mut map = Context::new();
    match ins {
        Instruction::From { image, tag, .. } => {
            let tag = match tag {
                Some(t) => t.clone(),
                None => "latest".to_owned(),
            };
            map.insert("from.tag".to_owned(), tag);
            map.insert("from.image".to_owned(), image.clone());
        },
        Instruction::Run { command, .. } => {
            map.insert("command".to_owned(), command.clone());
        },
        Instruction::Cmd { command, .. } => {
            map.insert("command".to_owned(), command.clone());
        },
        Instruction::Entrypoint { command, .. } => {
            map.insert("command".to_owned(), command.clone());
        },
        Instruction::Env { vars, .. } => {
            if vars.len() > 0 {
                map.insert("env.key".to_owned(), vars[0].key.clone());
                map.insert("env.value".to_owned(), vars[0].value.clone());
            }
        },
        Instruction::Misc { instruction, arguments, .. } => {
            let instruction_name = instruction.as_str().to_uppercase();
            return misc_fields(instruction_name.as_str(), arguments.as_str());
        },
        _ => {},
    }
    map
}

/// The line of `content`, counted from 1, on which the instruction begins.
pub fn get_line_number(ins: &Instruction, content: &str) -> (line: Option<usize>)
    ensures
        line == line_at(content@, ins.offset()),
{
    let bytes = content.as_bytes();
    let offset = ins.offset();
    if offset > bytes.len() {
        return None;
    }
    let mut count: usize = 0;
    let mut i: usize = 0;
    while i < offset
        invariant
            i <= offset <= bytes.len(),
            count <= i,
            count as nat == newline_count(bytes@.take(i as int)),
        decreases offset - i,
    {
        proof {
            assert(bytes@.take(i + 1).drop_last() =~= bytes@.take(i as int));
        }
        if bytes[i] == 10u8 {
            count += 1;
        }
        i += 1;
    }
    if count < usize::MAX {
        Some(count + 1)
    } else {
        None
    }
}

/// The user that a stage ends as: the argument of its last `USER` instruction.
pub fn find_last_user_instruction(stage: &Stage) -> (user: Option<String>)
    ensures
        match user {
            Some(name) => last_user(stage.instructions@) == Some(name@),
            None => last_user(stage.instructions@) is None,
        },
{
    let mut i: usize = stage.instructions.len();
    assert(stage.instructions@.take(i as int) =~= stage.instructions@);
    while i > 0
        invariant
            i <= stage.instructions.len(),
            last_user(stage.instructions@) == last_user(stage.instructions@.take(i as int)),
        decreases i,
    {
        i -= 1;
        proof {
            assert(stage.instructions@.take(i + 1).drop_last() =~= stage.instructions@.take(
                i as int,
            ));
        }
        if let Instruction::Misc { instruction, arguments, .. } = &stage.instructions[i] {
            let name = instruction.as_str().to_uppercase();
            let user = user_of(name.as_str(), arguments.as_str());
            if user.is_some() {
                return user;
            }
        }
    }
    None
}

} // verus!
