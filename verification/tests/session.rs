use hivm::assembler::{assemble_lexed, Assembler, LexedFile, Reply, Request};
use hivm::errors::Reason;
use hivm::module_manager::{AsmUnit, ModuleManager};
use hivm::symbol_table::StaticID;
use hivm::tokenizer::{float_lexemes, lex};

fn unit(path: &'static str, text: &'static str) -> Reply<'static> {
    let unit = AsmUnit::new(text);
    let raw_lines = lex(&unit.lines, path).unwrap();
    let floats = float_lexemes(&raw_lines).iter().map(|_| Some(0)).collect();
    Reply::Unit { unit, raw_lines, floats }
}

#[test]
fn a_session_begins_by_looking_for_its_file() {
    let (session, request) = Assembler::new("main.asm", vec![]);
    assert_eq!(request, Request::Probe { from: None, include_path: None, path: StaticID(0) });
    assert_eq!(session.symbol_table().get_static(StaticID(0)).as_string(), "main.asm");
    assert_eq!(session.nodes().len(), 0);
    assert_eq!(session.module_manager().unit_count(), 0);
}

#[test]
fn the_include_paths_are_tried_in_their_order() {
    let (mut session, _) = Assembler::new("main.asm", vec!["one".to_string(), "two".to_string()]);
    assert_eq!(session.module_manager().include_path_count(), 2);
    assert_eq!(session.module_manager().include_path(1), "two");
    assert_eq!(
        session.reply(Reply::Missing),
        Ok(Request::Probe { from: None, include_path: Some(0), path: StaticID(0) })
    );
    assert_eq!(
        session.reply(Reply::Missing),
        Ok(Request::Probe { from: None, include_path: Some(1), path: StaticID(0) })
    );
    let error = session.reply(Reply::Missing).unwrap_err();
    assert_eq!(error.reason, Reason::Io);
    assert_eq!(error.token.unit_path, "main.asm");
}

#[test]
fn a_session_step_by_step() {
    let (mut session, _) = Assembler::new("main.asm", vec!["lib".to_string()]);
    // While a reply is owed, a step changes nothing.
    assert_eq!(
        session.step(),
        Ok(Request::Probe { from: None, include_path: None, path: StaticID(0) })
    );
    assert_eq!(session.reply(Reply::Found("/main.asm")), Ok(Request::Load { unit_path: "/main.asm" }));
    // A reply that answers another request changes nothing.
    assert_eq!(session.reply(Reply::Missing), Ok(Request::Load { unit_path: "/main.asm" }));
    assert_eq!(session.reply(Reply::Found("/x")), Ok(Request::Load { unit_path: "/main.asm" }));
    assert_eq!(
        session.reply(unit("/main.asm", "include \"lib.asm\"\n.text\nnop\ninclude \"lib.asm\"\n")),
        Ok(Request::Continue)
    );
    assert!(session.module_manager().is_loaded("/main.asm"));
    assert_eq!(session.module_manager().get_unit("/main.asm").unwrap().lines.len(), 4);
    // A reply that nobody asked for changes nothing.
    assert_eq!(session.reply(Reply::Missing), Ok(Request::Continue));

    let probe = Request::Probe { from: Some("/main.asm"), include_path: None, path: StaticID(1) };
    assert_eq!(session.step(), Ok(probe));
    assert_eq!(session.symbol_table().get_static(StaticID(1)).as_string(), "lib.asm");
    assert_eq!(
        session.reply(Reply::Missing),
        Ok(Request::Probe { from: Some("/main.asm"), include_path: Some(0), path: StaticID(1) })
    );
    assert_eq!(session.reply(Reply::Found("/lib/lib.asm")), Ok(Request::Load { unit_path: "/lib/lib.asm" }));
    assert_eq!(session.reply(unit("/lib/lib.asm", ".data\ndb 1\n")), Ok(Request::Continue));
    assert_eq!(session.module_manager().unit_count(), 2);

    // The lines of the included unit come first.
    assert_eq!(session.step(), Ok(Request::Continue));
    assert_eq!(session.nodes().len(), 1);
    assert_eq!(session.step(), Ok(Request::Continue));
    assert_eq!(session.nodes().len(), 2);
    // The included unit is closed.
    assert_eq!(session.step(), Ok(Request::Continue));
    assert_eq!(session.nodes().len(), 2);
    assert_eq!(session.step(), Ok(Request::Continue));
    assert_eq!(session.step(), Ok(Request::Continue));
    assert_eq!(session.nodes().len(), 4);

    // The second inclusion finds the unit loaded and adds nothing.
    let again = session.step().unwrap();
    assert_eq!(again, Request::Probe { from: Some("/main.asm"), include_path: None, path: StaticID(2) });
    assert_eq!(session.reply(Reply::Found("/lib/lib.asm")), Ok(Request::Continue));
    assert_eq!(session.module_manager().unit_count(), 2);
    assert_eq!(session.nodes().len(), 4);
    assert_eq!(session.step(), Ok(Request::Continue));
    assert_eq!(session.step(), Ok(Request::Done));
    assert_eq!(session.step(), Ok(Request::Done));
    assert_eq!(
        session.generate().unwrap(),
        vec![71, 10, 0, 0, 0, 0, 0, 0, 0, 1, 94]
    );
}

#[test]
fn a_file_that_cannot_be_read() {
    let (mut session, _) = Assembler::new("main.asm", vec![]);
    assert_eq!(session.reply(Reply::Found("/main.asm")), Ok(Request::Load { unit_path: "/main.asm" }));
    let error = session.reply(Reply::Failed).unwrap_err();
    assert_eq!(error.reason, Reason::Io);
    let (mut session, _) = Assembler::new("main.asm", vec![]);
    assert_eq!(session.reply(Reply::Failed).unwrap_err().reason, Reason::Io);
}

#[test]
fn parse_goes_on_until_the_host_is_asked() {
    let (mut session, _) = Assembler::new("main.asm", vec![]);
    session.reply(Reply::Found("/main.asm")).unwrap();
    session
        .reply(unit("/main.asm", ".text\nnop\nnop\ninclude \"x\"\nnop\n"))
        .unwrap();
    assert_eq!(session.parse(2), Ok(Request::Continue));
    assert_eq!(session.nodes().len(), 2);
    assert_eq!(session.parse(0), Ok(Request::Continue));
    let asked = session.parse(100).unwrap();
    assert_eq!(asked, Request::Probe { from: Some("/main.asm"), include_path: None, path: StaticID(1) });
    assert_eq!(session.nodes().len(), 3);
    assert_eq!(session.parse(100), Ok(asked));
    session.reply(Reply::Found("/main.asm")).unwrap();
    assert_eq!(session.parse(100), Ok(Request::Done));
    assert_eq!(session.nodes().len(), 4);
}

#[test]
fn an_error_in_a_line_stops_the_session() {
    let (mut session, _) = Assembler::new("main.asm", vec![]);
    session.reply(Reply::Found("/main.asm")).unwrap();
    session.reply(unit("/main.asm", ".text\nnop 1\n")).unwrap();
    let error = session.parse(100).unwrap_err();
    assert_eq!(error.reason, Reason::WrongArgumentCount { expected: 0, given: 1 });
    assert_eq!(error.token.unit_path, "/main.asm");
    // The section of the first line is there; the line that failed added nothing.
    assert_eq!(session.nodes().len(), 1);
    assert_eq!(session.module_manager().unit_count(), 1);
}

#[test]
fn the_units_in_memory() {
    let mut manager = ModuleManager::new(vec!["lib".to_string()]);
    assert!(!manager.is_loaded("a"));
    assert!(manager.get_unit("a").is_none());
    manager.add_unit("a", AsmUnit::new("one\ntwo\r\nthree"));
    manager.add_unit("b", AsmUnit::new(""));
    assert!(manager.is_loaded("a"));
    assert!(manager.is_loaded("b"));
    assert!(!manager.is_loaded("c"));
    assert_eq!(manager.unit_count(), 2);
    assert_eq!(manager.get_unit("a").unwrap().lines, vec!["one", "two", "three"]);
    assert_eq!(manager.get_unit("b").unwrap().lines, Vec::<&str>::new());
}

#[test]
fn the_lines_of_a_text() {
    assert_eq!(AsmUnit::new("a\nb\n").lines, vec!["a", "b"]);
    assert_eq!(AsmUnit::new("a\n\nb").lines, vec!["a", "", "b"]);
    assert_eq!(AsmUnit::new("a\r\nb\r\n").lines, vec!["a", "b"]);
    assert_eq!(AsmUnit::new("a\rb\r").lines, vec!["a\rb\r"]);
    assert_eq!(AsmUnit::new("\n").lines, vec![""]);
    assert_eq!(AsmUnit::new("").lines, Vec::<&str>::new());
}

#[test]
fn files_in_memory_are_found_by_their_path() {
    let file = |path: &'static str, text: &'static str| {
        let unit = AsmUnit::new(text);
        let raw_lines = lex(&unit.lines, path).unwrap();
        LexedFile { path, unit, raw_lines, floats: vec![] }
    };
    let files = vec![
        file("main", "include \"other\"\n.text\nnop\n"),
        file("other", ".data\ndb 7\n"),
        file("other", ".data\ndb 8\n"),
    ];
    assert_eq!(
        assemble_lexed("main", &files, 1000).unwrap(),
        vec![71, 10, 0, 0, 0, 0, 0, 0, 0, 7, 94]
    );
    assert_eq!(assemble_lexed("other", &files, 1000).unwrap(), vec![71, 0, 0, 0, 0, 0, 0, 0, 0, 7]);
    assert_eq!(assemble_lexed("none", &files, 1000).unwrap_err().reason, Reason::Io);
    assert_eq!(assemble_lexed("main", &files, 4).unwrap_err().reason, Reason::TooManySteps);
    assert_eq!(assemble_lexed("main", &vec![], 4).unwrap_err().reason, Reason::Io);
}
