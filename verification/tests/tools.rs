use gqy::language::Language;
use gqy::tools::memes::{
    expand_path, find_meme_in, load_library, required_str, sanitize_library, selected_library,
    user_library_dir, MemeItem, MemeSource,
};
use gqy::tools::memory::{
    parse_shard, score_of, snippet_of, Entry, MemoryError, MemoryFileStore, MemoryType, WriteMode,
    WriteOptions,
};
use gqy::tools::memory_tools::{
    deleted_reply, filename_argument, register, search_options, tool_named, write_options,
    MemoryTool,
};

fn options(name: &str, body: &str, mode: WriteMode) -> WriteOptions {
    WriteOptions {
        memory_type: MemoryType::Project,
        name: name.to_string(),
        title: " A Title ".to_string(),
        description: "what it is".to_string(),
        body: body.to_string(),
        mode,
    }
}

fn write(store: &mut MemoryFileStore, options: WriteOptions, now: &str) -> String {
    match store.write_at(&options, now) {
        Ok(result) => result.filename,
        Err(error) => panic!("{}", error.message()),
    }
}

#[test]
fn what_is_written_is_read_back() {
    let mut store = MemoryFileStore::new("m".to_string());
    assert_eq!(write(&mut store, options("x", " body \n", WriteMode::Create), "t1"), "x.md");
    let shard = store.read("x.md").map_err(|e| e.message()).unwrap();
    assert_eq!(shard.meta.title, "A Title");
    assert_eq!(shard.meta.filename, "x.md");
    assert_eq!(shard.meta.memory_type, MemoryType::Project);
    assert_eq!(shard.meta.created_at, "t1");
    assert_eq!(shard.body, "body");
    let mut update = options("x", "other", WriteMode::Update);
    update.memory_type = MemoryType::Feedback;
    write(&mut store, update, "t2");
    let shard = store.read("x.md").map_err(|e| e.message()).unwrap();
    assert_eq!((shard.meta.created_at.as_str(), shard.meta.updated_at.as_str()), ("t1", "t2"));
    assert_eq!(shard.meta.memory_type, MemoryType::Feedback);
    write(&mut store, options("x", "more", WriteMode::Append), "t3");
    let shard = store.read("x.md").map_err(|e| e.message()).unwrap();
    assert_eq!(shard.body, "other\nmore");
    assert_eq!(shard.meta.memory_type, MemoryType::Feedback);
    assert_eq!(store.index(), "# Memory Index\n\n- [A Title] (feedback) - what it is\n");
}

#[test]
fn writes_are_refused_for_a_reason() {
    let mut store = MemoryFileStore::new("m".to_string());
    write(&mut store, options("x.md", "b", WriteMode::Create), "t1");
    let again = store.write_at(&options("x", "b", WriteMode::Create), "t2");
    assert_eq!(
        again.map(|_| ()).unwrap_err().message(),
        "ALREADY_EXISTS: memory 'x.md' already exists"
    );
    let missing = store.write_at(&options("y", "b", WriteMode::Update), "t2");
    assert!(matches!(missing.map(|_| ()), Err(MemoryError::NotFound(name)) if name == "y.md"));
    let missing = store.write_at(&options("y", "b", WriteMode::Append), "t2");
    assert!(matches!(missing.map(|_| ()), Err(MemoryError::NotFound(_))));
    assert_eq!(
        store.delete("z.md").unwrap_err().message(),
        "NOT_FOUND: memory 'z.md' not found"
    );
    assert!(matches!(store.read("MEMORY.md").map(|_| ()), Err(MemoryError::MissingFrontmatter)));
    assert!(matches!(parse_shard("---\ntitle: x").map(|_| ()), Err(MemoryError::UnclosedFrontmatter)));
    assert!(store.delete("x.md").is_ok());
    assert!(matches!(store.read("x.md").map(|_| ()), Err(MemoryError::NotFound(_))));
    assert_eq!(store.index(), "# Memory Index\n\n");
}

#[test]
fn files_that_are_no_shards_are_passed_over() {
    let text = |path: &str, text: &str| (path.to_string(), Entry::Text(text.to_string()));
    let entries = vec![
        text("m/a.md", "no head"),
        text("m/b.txt", "---\ntitle: t\n---\n"),
        text("m/c.md", "---\ntype: Reference\ntitle: t: u\n---\nbody"),
        ("m/sub".to_string(), Entry::Directory),
        ("m/e.md".to_string(), Entry::Directory),
        ("m/f.md".to_string(), Entry::Bytes),
        text("m/sub/d.md", "---\ntype: Reference\ntitle: below\n---\nbody"),
        text("g.md", "---\ntitle: beside\n---\nbody"),
    ];
    let mut store = MemoryFileStore::with_entries("./m//".to_string(), entries);
    assert_eq!(store.home(), "m");
    let listed = store.list();
    assert_eq!(listed.len(), 1);
    assert_eq!(listed[0].title, "t: u");
    assert_eq!(listed[0].memory_type, MemoryType::Reference);
    assert_eq!(store.entries().len(), 9);
    assert_eq!(store.clone().entries().len(), 9);
    assert_eq!(store.base_dir(), "./m//");
    for (name, title) in
        [("sub/d.md", "below"), ("./sub//../sub/./d.md", "below"), ("../g.md", "beside")]
    {
        let shard = store.read(name).map_err(|e| e.message()).unwrap();
        assert_eq!(shard.meta.title, title);
        assert_eq!(Some(shard.meta.filename.as_str()), name.rsplit('/').next());
    }
    for name in ["nowhere/d.md", "nowhere/../c.md", "c.md/", "c.md/.", "c.md/x.md", "c.md\0"] {
        assert!(matches!(store.read(name).map(|_| ()), Err(MemoryError::NotFound(_))));
        assert!(matches!(store.delete(name), Err(MemoryError::NotFound(_))));
    }
    for name in ["sub", "", ".", "..", "/", "sub/..", "e.md"] {
        assert!(matches!(store.read(name).map(|_| ()), Err(MemoryError::Unreadable(_))));
        assert!(matches!(store.delete(name), Err(MemoryError::Unwritable(_))));
    }
    assert_eq!(store.read("f.md").map(|_| ()).unwrap_err().message(), "cannot read 'f.md'");
    assert!(store.delete("f.md").is_ok());
    assert!(matches!(store.read("f.md").map(|_| ()), Err(MemoryError::NotFound(_))));
}

#[test]
fn shards_are_made_only_in_directories() {
    let entries = vec![
        ("/m/sub".to_string(), Entry::Directory),
        ("/m/f.md".to_string(), Entry::Bytes),
    ];
    let mut store = MemoryFileStore::with_entries("/m".to_string(), entries);
    assert_eq!(write(&mut store, options("sub/x", "b", WriteMode::Create), "t"), "sub/x.md");
    let shard = store.read("sub/x.md").map_err(|e| e.message()).unwrap();
    assert_eq!((shard.meta.filename.as_str(), shard.body.as_str()), ("x.md", "b"));
    assert!(store.list().is_empty());
    assert_eq!(store.index(), "# Memory Index\n\n");
    let nowhere = store.write_at(&options("nowhere/x", "b", WriteMode::Create), "t");
    assert_eq!(nowhere.map(|_| ()).unwrap_err().message(), "cannot write 'nowhere/x.md'");
    for name in ["sub/../sub/x", "/m/./sub/x.md", "f.md", "MEMORY.md"] {
        let there = store.write_at(&options(name, "b", WriteMode::Create), "t");
        assert!(matches!(there.map(|_| ()), Err(MemoryError::AlreadyExists(_))));
    }
    assert_eq!(write(&mut store, options("../m/y", "b", WriteMode::Create), "t"), "../m/y.md");
    assert_eq!(store.list().len(), 1);
    assert_eq!(store.place_of("y.md"), Some("/m/y.md".to_string()));
    assert_eq!(store.place_of("/../y.md"), Some("/y.md".to_string()));
    let blocked = vec![("/m/MEMORY.md".to_string(), Entry::Directory)];
    let mut store = MemoryFileStore::with_entries("/m".to_string(), blocked);
    let written = store.write_at(&options("x", "b", WriteMode::Create), "t");
    assert!(matches!(written.map(|_| ()), Err(MemoryError::Unwritable(_))));
    assert!(store.read("x.md").is_ok());
    assert_eq!(store.index(), "# Memory Index\n\n");
}

#[test]
fn a_search_ranks_what_it_finds() {
    let mut store = MemoryFileStore::new("m".to_string());
    let mut first = options("a", "about rust", WriteMode::Create);
    first.title = "Other".to_string();
    write(&mut store, first, "t");
    let mut second = options("b", "nothing", WriteMode::Create);
    second.title = "RUST".to_string();
    second.description = "rust too".to_string();
    second.memory_type = MemoryType::User;
    write(&mut store, second, "t");
    let hits = store.search("Rust", None, 10);
    assert_eq!(hits.iter().map(|h| h.score).collect::<Vec<_>>(), vec![7, 2]);
    assert_eq!(hits[0].filename, "b.md");
    assert_eq!(hits[0].snippet, "nothing...");
    assert_eq!(hits[1].snippet, "...about rust...");
    assert_eq!(store.search("rust", None, 1).len(), 1);
    assert_eq!(store.search("rust", Some(MemoryType::Project), 10).len(), 1);
    assert_eq!(store.search("absent", None, 10).len(), 0);
    assert_eq!(score_of("a", "a", "a", "a"), 9);
}

#[test]
fn snippets_are_cut_around_what_was_found() {
    let body = format!("{}needle{}", "a".repeat(80), "b".repeat(80));
    let snippet = snippet_of("needle", &body, "needle", &body);
    assert_eq!(snippet, format!("...{}needle{}...", "a".repeat(50), "b".repeat(50)));
    let wide = format!("{}needle", "界".repeat(40));
    let snippet = snippet_of("needle", &wide, "needle", &wide);
    assert_eq!(snippet, format!("...{}needle...", "界".repeat(17)));
    assert_eq!(snippet_of("x", &"y".repeat(200), "x", &"y".repeat(200)).len(), 103);
}

#[test]
fn words_stand_for_types() {
    assert_eq!(MemoryType::from_str("USER"), Some(MemoryType::User));
    assert_eq!(MemoryType::from_str("Feedback"), Some(MemoryType::Feedback));
    assert_eq!(MemoryType::from_str("ßx"), None);
    assert_eq!(MemoryType::Reference.as_str(), "reference");
}

#[test]
fn the_tools_of_the_memory_are_offered() {
    let tools = register();
    assert_eq!(tools.len(), 6);
    assert_eq!(tools[2].spec(Language::English).name, "cindy_memory_write");
    assert!(tools[2].spec(Language::English).writes);
    assert!(!MemoryTool::Search.spec(Language::English).writes);
    assert!(matches!(tool_named("cindy_memory_delete"), Some(MemoryTool::Delete)));
    assert!(tool_named("memory").is_none());
    assert_eq!(MemoryTool::Index.spec(Language::English).display_name, "Cindy Memory Index");
    assert_eq!(MemoryTool::Index.spec(Language::Chinese).display_name, "Cindy 记忆索引");
    assert_eq!(MemoryTool::Read.spec(Language::Chinese).description, "按文件名读取 Cindy 记忆分片");
    for tool in tools {
        assert!(serde_json::from_str::<serde_json::Value>(tool.spec(Language::English).parameters).is_ok());
    }
}

#[test]
fn calls_of_the_tools_are_read() {
    let options = write_options(
        "{\"type\":\"Project\",\"name\":\"n\",\"title\":\"t\",\"description\":\"d\",\"body\":\"b\",\"mode\":\"append\"}",
    );
    assert_eq!(options.memory_type, MemoryType::Project);
    assert_eq!(options.mode, WriteMode::Append);
    assert_eq!(options.body, "b");
    let plain = write_options("{\"name\":\"n\",\"mode\":\"other\"}");
    assert_eq!(plain.memory_type, MemoryType::User);
    assert_eq!(plain.mode, WriteMode::Create);
    assert_eq!(plain.title, "");
    let search = search_options("{\"query\":\"q\",\"limit\":3}");
    assert_eq!((search.query.as_str(), search.limit), ("q", 3));
    assert_eq!(search_options("{\"limit\":-1}").limit, 10);
    assert_eq!(filename_argument("{\"filename\":\"f.md\"}"), "f.md");
    assert_eq!(deleted_reply("f\".md"), "{\"deleted\":\"f\\\".md\",\"ok\":true}");
}

#[test]
fn libraries_have_plain_names() {
    assert_eq!(sanitize_library("  My Cats!  "), "my-cats");
    assert_eq!(sanitize_library("--"), "default");
    assert_eq!(sanitize_library(&sanitize_library("Ä b_C")), sanitize_library("Ä b_C"));
    assert_eq!(selected_library(Some(" X "), "persona"), "x");
    assert_eq!(selected_library(Some("  "), "Persona"), "persona");
    assert_eq!(selected_library(None, "Persona"), "persona");
    assert_eq!(user_library_dir("/data", "A B"), "/data/memes/a-b");
    assert_eq!(required_str(Some(" x "), "id"), Ok("x".to_string()));
    assert_eq!(required_str(None, "id"), Err("id is required".to_string()));
    assert_eq!(expand_path("~/a", Some("/home/u"), "/w"), "/home/u/a");
    assert_eq!(expand_path(" /a ", None, "/w"), "/a");
    assert_eq!(expand_path("a", None, "/w"), "/w/a");
}

fn item(hash: &str) -> MemeItem {
    MemeItem {
        id: format!("sha256:{hash}"),
        hash: hash.to_string(),
        file: format!("{hash}.png"),
    }
}

#[test]
fn pictures_of_the_user_come_first() {
    let user = vec![item("aa11"), item("bb22")];
    let builtin = vec![item("aa11"), item("cc33"), item("dd44")];
    let disabled = vec!["bb22".to_string(), "dd44".to_string()];
    let memes = load_library(&user, "/u", &builtin, "/b", &disabled);
    assert_eq!(
        memes.iter().map(|m| m.path.as_str()).collect::<Vec<_>>(),
        vec!["/u/aa11.png", "/b/cc33.png"]
    );
    assert_eq!(memes[0].source, MemeSource::User);
    assert_eq!(memes[1].source, MemeSource::Builtin);
    let found = find_meme_in(&memes, "cc", false, 2).unwrap();
    assert_eq!(found.unwrap().item.hash, "cc33");
    assert!(find_meme_in(&memes, "", false, 2).unwrap().is_none());
    assert!(find_meme_in(&memes, "ee", false, 2).unwrap().is_none());
    assert_eq!(
        find_meme_in(&memes, "c", false, 2).map(|_| ()).unwrap_err(),
        "meme id prefix is too short: c; use at least 2 hex characters"
    );
    let twins = load_library(&vec![item("aa11"), item("aa22")], "/u", &Vec::new(), "/b", &Vec::new());
    assert_eq!(
        find_meme_in(&twins, "aa", true, 2).map(|_| ()).unwrap_err(),
        "meme id prefix is ambiguous: aa; use a longer id"
    );
}
