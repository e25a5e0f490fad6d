use ocw_labs::bigxml::{calculate_diff, get_id, get_xml_chunk, hex, process_chunk, process_response};
use ocw_labs::chunk_index::{calculate_checksum, ChunkIndex};
use ocw_labs::config::{Config, RunAction};

fn config(keys: &str, delimiter: &str, chunk_size: usize, mode: &str, concurrency: i8, bind: &str, verbosity: i8) -> Config {
    Config::new()
        .with_xml_keys(keys.to_owned())
        .with_chunk_delimiter(delimiter.to_owned())
        .with_file("MEMORY".to_owned())
        .with_file("MEMORY".to_owned())
        .with_chunk_size(chunk_size)
        .with_mode(mode.to_owned())
        .with_concurrency(concurrency)
        .with_bind_address(bind.to_owned())
        .with_verbosity(verbosity)
}

#[test]
fn it_gets_chunks() {
    let cfg = config("INVALID", "IMPORTANT_DATA", 50usize, "test", 10i8, "tcp://*:5555", 0i8);
    let mut test_xml = "<PRELUDE_TAGS></PRELUDE_TAGS>
      <IMPORTANT_DATA><INTERNAL_DATA>A</INTERNAL_DATA></IMPORTANT_DATA>
      <IRRELEVANT_DATA>1</IRRELEVANTDATA>
      <IMPORTANT_DATA>"
        .to_owned();
    assert_eq!(
        get_xml_chunk(&mut test_xml, &cfg),
        Some(("<INTERNAL_DATA>A</INTERNAL_DATA>".to_owned(), 52usize))
    );
    assert_eq!(
        test_xml,
        "
      <IRRELEVANT_DATA>1</IRRELEVANTDATA>
      <IMPORTANT_DATA>"
            .to_owned()
    );
    // There is not enough data left in this XML for a complete chunk:
    assert_eq!(get_xml_chunk(&mut test_xml, &cfg), None);
    // Add more data that completes the partial chunk and contains a new chunk:
    test_xml.push_str("<INTERNAL_DATA>B</INTERNAL_DATA></IMPORTANT_DATA><IMPORTANT_DATA><INTERNAL_DATA>C</INTERNAL_DATA></IMPORTANT_DATA></LAST_TAG>");
    assert_eq!(
        get_xml_chunk(&mut test_xml, &cfg),
        Some(("<INTERNAL_DATA>B</INTERNAL_DATA>".to_owned(), 65usize))
    );
    assert_eq!(
        test_xml,
        "<IMPORTANT_DATA><INTERNAL_DATA>C</INTERNAL_DATA></IMPORTANT_DATA></LAST_TAG>".to_owned()
    );
    assert_eq!(
        get_xml_chunk(&mut test_xml, &cfg),
        Some(("<INTERNAL_DATA>C</INTERNAL_DATA>".to_owned(), 16usize))
    );
    assert_eq!(test_xml, "</LAST_TAG>".to_owned());
    let cfg = config("li", "div", 10usize, "checksum", 10i8, "tcp://*:5555", 0i8);
    let mut test_html =
        "<html><head></head> <body> <div><li>1</li></div> <div><li>2</li></div> <div><li>3</li></div> </body> </html>"
            .to_owned();
    assert_eq!(get_xml_chunk(&mut test_html, &cfg), Some(("<li>1</li>".to_owned(), 32usize)));
    assert_eq!(get_xml_chunk(&mut test_html, &cfg), Some(("<li>2</li>".to_owned(), 6usize)));
    assert_eq!(get_xml_chunk(&mut test_html, &cfg), Some(("<li>3</li>".to_owned(), 6usize)));
}

#[test]
fn it_gets_id() {
    let verbosity = 1i8;
    let cfg = config("KEY_1,KEY_2,KEY_3", "NOTHING", 10usize, "checksum", 10i8, "tcp://*:5555", verbosity);
    let mut chunk_id: Vec<String> = vec![String::with_capacity(64), String::with_capacity(64), String::with_capacity(64)];
    let test_xml = "<KEY_3>A</KEY_3><KEY_2></KEY_2><KEY_1>1</KEY_1>".to_owned();
    let fake_id = "TESTUNIT".to_owned();
    assert_eq!(get_id(&test_xml, &cfg.xml_keys, &mut chunk_id, &fake_id, verbosity), true);
    assert_eq!(chunk_id.join("&"), "1&&A".to_owned());
    let test_xml = "
    
    <KEY_1>1</KEY_1>
      <KEY_3>A</KEY_3>
      <KEY_2></KEY_2>"
        .to_owned();
    assert_eq!(get_id(&test_xml, &cfg.xml_keys, &mut chunk_id, &fake_id, verbosity), true);
    assert_eq!(chunk_id.join("&"), "1&&A".to_owned());
    let test_xml = "NotAnXML".to_owned();
    assert_eq!(get_id(&test_xml, &cfg.xml_keys, &mut chunk_id, &fake_id, verbosity), false);
    let test_xml = "<KEY_3>A</KEY_3>".to_owned();
    assert_eq!(get_id(&test_xml, &cfg.xml_keys, &mut chunk_id, &fake_id, verbosity), false);
    // A key found twice does not stand for a key that is missing.
    let test_xml = "<KEY_1>1</KEY_1><KEY_1>2</KEY_1><KEY_3>A</KEY_3>".to_owned();
    assert_eq!(get_id(&test_xml, &cfg.xml_keys, &mut chunk_id, &fake_id, verbosity), false);
    let mut two: Vec<String> = vec![String::new(), String::new()];
    let keys = vec!["/a".to_owned(), "/b".to_owned()];
    assert_eq!(get_id(&"<a>1</a><a>2</a>".to_owned(), &keys, &mut two, &fake_id, verbosity), false);
    assert_eq!(get_id(&"<b>3</b><a>1</a><a>2</a>".to_owned(), &keys, &mut two, &fake_id, verbosity), true);
    assert_eq!(two, vec!["12".to_owned(), "3".to_owned()]);
    let cfg = config("li", "div", 10usize, "checksum", 10i8, "tcp://*:5555", verbosity);
    let mut html_chunk_id: Vec<String> = vec![String::with_capacity(64)];
    let test_html = "<html><head></head> <body> <div><li>1</li></div> </body> </html>".to_owned();
    assert_eq!(get_id(&test_html, &cfg.xml_keys, &mut html_chunk_id, &fake_id, verbosity), true);
    assert_eq!(html_chunk_id.join("&"), "1".to_owned());
}

#[test]
fn it_gets_sha256() {
    let test_data = "<KEY_3>A</KEY_3><KEY_2></KEY_2><KEY_1>1</KEY_1>".to_owned();
    assert_eq!(calculate_checksum(&test_data), calculate_checksum(&test_data));
}

#[test]
fn it_hashes_sorted_lines() {
    // The SHA-256 of "abc".
    assert_eq!(
        calculate_checksum(&"abc".to_owned()),
        "ba7816bf8f01cfea414140de5dae2223b00361a396177a9cb410ff61f20015ad".to_owned()
    );
    // Lines are sorted before hashing, so their order does not matter.
    assert_eq!(calculate_checksum(&"b\na".to_owned()), calculate_checksum(&"a\nb".to_owned()));
    assert_eq!(calculate_checksum(&"b\r\na\n".to_owned()), calculate_checksum(&"a\nb".to_owned()));
    assert_ne!(calculate_checksum(&"a\nb".to_owned()), calculate_checksum(&"a\nc".to_owned()));
}

#[test]
fn it_calculates_diff() {
    let verbosity = -1i8;
    let mut idx1 = ChunkIndex::new(&"NONE".to_owned());
    let mut idx2 = ChunkIndex::new(&"NONE".to_owned());
    // These records exist in both indexes.
    idx1.insert("sameid".to_owned(), "SHA1&0".to_owned());
    idx2.insert("sameid".to_owned(), "SHA1&0".to_owned());
    // This record exists only in the first index.
    idx1.insert("deletedid".to_owned(), "SHA1&1".to_owned());
    // These records have been modified.
    idx1.insert("changedid".to_owned(), "SHA1&2".to_owned());
    idx2.insert("changedid".to_owned(), "SHA2&2".to_owned());
    // These records have been added
    idx2.insert("addedid".to_owned(), "SHA1&3".to_owned());
    let (added, modified, deleted) = ocw_labs::chunk_index::calculate_diff(&mut idx1, &mut idx2, verbosity);
    assert_eq!(added.len(), 1);
    assert_eq!(modified.len(), 1);
    assert_eq!(deleted.len(), 1);
    assert_eq!((added, modified, deleted), (vec![3], vec![2], vec![1]));
    assert_eq!(idx1.chunks, vec![("deletedid".to_owned(), "SHA1&1".to_owned())]);
    assert_eq!(idx2.chunks, vec![("addedid".to_owned(), "SHA1&3".to_owned())]);
}

#[test]
fn it_calculates_diff_removing_common_ids() {
    let cfg = Config::new();
    let mut idx1 = ChunkIndex::new(&"NONE".to_owned());
    let mut idx2 = ChunkIndex::new(&"NONE".to_owned());
    idx1.insert("sameid".to_owned(), "SHA1&0".to_owned());
    idx2.insert("sameid".to_owned(), "SHA1&0".to_owned());
    idx1.insert("deletedid".to_owned(), "SHA1&1".to_owned());
    idx1.insert("changedid".to_owned(), "SHA1&2".to_owned());
    idx2.insert("changedid".to_owned(), "SHA2&2".to_owned());
    idx2.insert("addedid".to_owned(), "SHA1&3".to_owned());
    let (added, modified, deleted) = calculate_diff(&cfg, &mut idx1, &mut idx2);
    assert_eq!((added, modified, deleted), (vec![3], vec![2], vec![1]));
    assert_eq!(idx1.chunks, vec![("deletedid".to_owned(), "SHA1&1".to_owned())]);
    assert_eq!(idx2.chunks, vec![("addedid".to_owned(), "SHA1&3".to_owned())]);
}

#[test]
fn it_lists_diff_offsets_in_file_order() {
    let cfg = Config::new();
    let mut idx1 = ChunkIndex::new(&"old".to_owned());
    let mut idx2 = ChunkIndex::new(&"new".to_owned());
    idx1.insert("a".to_owned(), "x&30".to_owned());
    idx1.insert("b".to_owned(), "x&10".to_owned());
    idx1.insert("c".to_owned(), "x&5".to_owned());
    idx2.insert("c".to_owned(), "y&70".to_owned());
    idx1.insert("d".to_owned(), "x&6".to_owned());
    idx2.insert("d".to_owned(), "y&40".to_owned());
    idx2.insert("e".to_owned(), "z&90".to_owned());
    idx2.insert("f".to_owned(), "z&20".to_owned());
    let (added, modified, deleted) = calculate_diff(&cfg, &mut idx1, &mut idx2);
    assert_eq!(deleted, vec![10, 30]);
    assert_eq!(modified, vec![40, 70]);
    assert_eq!(added, vec![20, 90]);
}

#[test]
fn it_indexes_chunks_in_id_order() {
    let mut idx = ChunkIndex::new(&"file".to_owned());
    assert!(idx.insert("b".to_owned(), "x&1".to_owned()));
    assert!(idx.insert("a".to_owned(), "y&2".to_owned()));
    assert!(!idx.insert("b".to_owned(), "z&3".to_owned()));
    assert_eq!(idx.search(&"b".to_owned()), Some(&"x&1".to_owned()));
    assert_eq!(idx.search(&"c".to_owned()), None);
    assert_eq!(idx.chunks, vec![("a".to_owned(), "y&2".to_owned()), ("b".to_owned(), "x&1".to_owned())]);
    idx.remove(&"a".to_owned());
    assert_eq!(idx.search(&"a".to_owned()), None);
    assert_eq!(idx.len(), 1);
}

#[test]
fn it_processes_chunks() {
    let keys = vec!["/KEY_1".to_owned(), "/KEY_2".to_owned()];
    let mut chunk_id: Vec<String> = vec![String::new(), String::new()];
    let chunk = "<KEY_2>b</KEY_2><KEY_1>a</KEY_1>".to_owned();
    let res = process_chunk(&chunk, &mut chunk_id, &keys, &"W".to_owned(), 0);
    assert_eq!(res, Ok(("a&b".to_owned(), calculate_checksum(&chunk))));
    let res = process_chunk(&"<KEY_1>a</KEY_1>".to_owned(), &mut chunk_id, &keys, &"W".to_owned(), 0);
    assert_eq!(res, Err("get_id: Unable to find key".to_owned()));
}

#[test]
fn it_processes_responses() {
    let mut idx = ChunkIndex::new(&"f".to_owned());
    let e = String::new();
    assert_eq!(process_response(&"READYFORWORK".to_owned(), &e, &e, &e, &mut idx, 0), Ok(1));
    assert_eq!(
        process_response(&"RESULT".to_owned(), &"1".to_owned(), &"SHA".to_owned(), &"007".to_owned(), &mut idx, 0),
        Ok(0)
    );
    assert_eq!(idx.search(&"1".to_owned()), Some(&"SHA&7".to_owned()));
    assert_eq!(
        process_response(&"LASTRESULT".to_owned(), &"1".to_owned(), &"SHB".to_owned(), &"26".to_owned(), &mut idx, 0),
        Err("At offset 26, found existing key 1 at sha&offset SHA&7".to_owned())
    );
    assert_eq!(
        process_response(&"LASTRESULT".to_owned(), &"2".to_owned(), &"SHB".to_owned(), &"26".to_owned(), &mut idx, 0),
        Ok(-1)
    );
}

#[test]
fn it_formats_hex() {
    assert_eq!(hex(&[0u8, 15, 16, 255]), "000f10ff".to_owned());
    assert_eq!(hex(&[]), "".to_owned());
}

#[test]
fn it_skips_stray_closing_tags() {
    let cfg = config("li", "div", 10usize, "checksum", 10i8, "tcp://*:5555", 0);
    let mut data = "</div><div><li>1</li></div>".to_owned();
    assert_eq!(get_xml_chunk(&mut data, &cfg), Some(("<li>1</li>".to_owned(), 11usize)));
    assert_eq!(data, "".to_owned());
    let mut open_only = "<div><li>1".to_owned();
    assert_eq!(get_xml_chunk(&mut open_only, &cfg), None);
    assert_eq!(open_only, "<div><li>1".to_owned());
}

#[test]
fn it_builds_and_runs_configs() {
    let cfg = Config::new();
    assert_eq!(cfg.mode, "help".to_owned());
    assert_eq!(cfg.chunk_size, 32 * 1024);
    assert_eq!(cfg.concurrency, 4);
    assert_eq!(cfg.bind_address, "ipc://test".to_owned());
    let cfg = cfg.with_xml_keys("a,b".to_owned()).with_chunk_size(2).with_mode("whatever".to_owned());
    assert_eq!(cfg.xml_keys, vec!["/a".to_owned(), "/b".to_owned()]);
    assert_eq!(cfg.chunk_size, 2048);
    assert_eq!(cfg.mode, "diff".to_owned());
    assert!(matches!(cfg.run(), Ok(RunAction::PrintUsage)));
    let mut cfg = Config::new().with_use_index_files(false);
    cfg.mode = "diff".to_owned();
    assert!(matches!(cfg.run(), Ok(RunAction::Nothing)));
    let mut cfg = Config::new();
    cfg.mode = "index".to_owned();
    assert_eq!(cfg.build(true, true).err(), Some("Missing XML Chunk delimiter".to_owned()));
    let mut cfg = Config::new().with_chunk_delimiter("d".to_owned()).with_xml_keys("k".to_owned());
    cfg.mode = "index".to_owned();
    let cfg = cfg.with_file("in1".to_owned()).with_file("in2".to_owned());
    assert_eq!(cfg.build(false, true).err(), Some("Input file 'in1' does not exist.".to_owned()));
    let mut cfg = Config::new();
    cfg.mode = "other".to_owned();
    assert_eq!(cfg.run().err(), Some("Unknown operational mode".to_owned()));
}
