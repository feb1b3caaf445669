use sanvi::digest::calculate_hash;
use sanvi::model::archive::{archive_write, file_name, ArchiveWrite, Existing};
use sanvi::model::cache::PayloadCache;
use sanvi::model::fetch::{reply, DataPkt};
use sanvi::model::parse::{parse, Document};
use sanvi::verbosity::log_filter;
use sanvi::view::compose::{page_for, Page, StaticFiles};

const RSS_T: &str = "<?xml version=\"1.0\"?><rss version=\"2.0\"><channel><title>T</title><link>http://x/</link><description>d</description></channel></rss>";

const ATOM_T: &str = "<?xml version=\"1.0\" encoding=\"utf-8\"?><feed xmlns=\"http://www.w3.org/2005/Atom\"><title>A</title><id>urn:a</id><updated>2020-01-01T00:00:00Z</updated></feed>";

fn s(text: &str) -> String {
    text.to_string()
}

#[test]
fn parse_rss() {
    match parse(RSS_T) {
        Document::Rss(channel) => {
            assert_eq!(channel.title(), "T");
            assert_eq!(channel.link(), "http://x/");
        }
        _ => panic!("expected RSS"),
    }
}

#[test]
fn parse_atom_when_rss_fails() {
    assert!(rss::Channel::read_from(ATOM_T.as_bytes()).is_err());
    match parse(ATOM_T) {
        Document::Atom(feed) => assert_eq!(feed.title().as_str(), "A"),
        _ => panic!("expected Atom"),
    }
}

#[test]
fn parse_neither() {
    assert!(matches!(parse(""), Document::Unparseable));
    assert!(matches!(parse("plain text"), Document::Unparseable));
    assert!(matches!(parse("<html><body/></html>"), Document::Unparseable));
}

#[test]
fn parse_is_the_same_each_time() {
    let first = match parse(RSS_T) {
        Document::Rss(channel) => channel,
        _ => panic!("expected RSS"),
    };
    let second = match parse(RSS_T) {
        Document::Rss(channel) => channel,
        _ => panic!("expected RSS"),
    };
    assert_eq!(first, second);
}

#[test]
fn reply_for_each_document() {
    assert!(matches!(reply(parse(RSS_T)), DataPkt::Channel(_)));
    assert!(matches!(reply(parse(ATOM_T)), DataPkt::Feed(_)));
    assert!(matches!(reply(parse("junk")), DataPkt::Error(502)));
}

#[test]
fn hash_depends_on_the_text_only() {
    assert_eq!(calculate_hash(&s("payload")), calculate_hash(&s("payload")));
    assert_ne!(calculate_hash(&s("payload")), calculate_hash(&s("payload ")));
    assert_ne!(calculate_hash(&s("")), calculate_hash(&s("a")));
}

#[test]
fn archive_file_name() {
    assert_eq!(file_name(&s("blog")), "blog.xml");
    assert_eq!(file_name(&s("")), ".xml");
}

#[test]
fn archive_write_decisions() {
    assert_eq!(archive_write(&Existing::Missing, &s("p")), ArchiveWrite::Create);
    assert_eq!(archive_write(&Existing::Unreadable, &s("p")), ArchiveWrite::Nothing);
    assert_eq!(archive_write(&Existing::Content(s("p")), &s("p")), ArchiveWrite::Nothing);
    assert_eq!(archive_write(&Existing::Content(s("q")), &s("p")), ArchiveWrite::Overwrite);
    assert_eq!(archive_write(&Existing::Content(s("")), &s("p")), ArchiveWrite::Overwrite);
}

#[test]
fn cache_lookup_and_overwrite() {
    let mut cache = PayloadCache::new(3);
    assert_eq!(cache.lookup(&s("a")), None);
    cache.insert(s("a"), s("1"));
    cache.insert(s("b"), s("2"));
    assert_eq!(cache.lookup(&s("a")), Some(s("1")));
    assert_eq!(cache.lookup(&s("b")), Some(s("2")));
    cache.insert(s("a"), s("3"));
    assert_eq!(cache.lookup(&s("a")), Some(s("3")));
    assert_eq!(cache.lookup(&s("b")), Some(s("2")));
    cache.insert(s("c"), s("4"));
    assert_eq!(cache.lookup(&s("a")), Some(s("3")));
    assert_eq!(cache.lookup(&s("b")), Some(s("2")));
    assert_eq!(cache.lookup(&s("c")), Some(s("4")));
}

#[test]
fn cache_never_exceeds_capacity() {
    for capacity in [0usize, 1, 2, 5, 33, 65] {
        let mut cache = PayloadCache::new(capacity);
        let names: Vec<String> = (0..200).map(|i| format!("source{}", i)).collect();
        for (i, name) in names.iter().enumerate() {
            cache.insert(name.clone(), format!("payload{}", i));
            if i % 3 == 0 {
                cache.lookup(&names[i / 2]);
            }
            let held = names.iter().filter(|n| cache.lookup(n).is_some()).count();
            assert!(held <= capacity, "{} entries in a cache for {}", held, capacity);
            if i < capacity {
                assert_eq!(held, i + 1);
            }
        }
    }
}

#[test]
fn cache_holds_what_was_inserted_and_evicts_one_when_full() {
    let names: Vec<String> = (0..25).map(|i| format!("n{}", i)).collect();
    let mut state: u64 = 0x9E3779B97F4A7C15;
    for capacity in [1usize, 2, 3, 7, 20] {
        let mut cache = PayloadCache::new(capacity);
        for step in 0..3000usize {
            state ^= state << 13;
            state ^= state >> 7;
            state ^= state << 17;
            let name = &names[(state % 25) as usize];
            if (state >> 40) % 3 == 0 {
                cache.lookup(&names[((state >> 20) % 25) as usize]);
                continue;
            }
            let before: Vec<Option<String>> = names.iter().map(|n| cache.lookup(n)).collect();
            let held = before.iter().filter(|p| p.is_some()).count();
            let was = before[(state % 25) as usize].is_some();
            cache.insert(name.clone(), format!("p{}", step));
            assert_eq!(cache.lookup(name), Some(format!("p{}", step)));
            let mut gone = 0;
            for (i, other) in names.iter().enumerate() {
                if other == name {
                    continue;
                }
                match (&before[i], cache.lookup(other)) {
                    (Some(old), Some(new)) => assert_eq!(old, &new),
                    (Some(_), None) => gone += 1,
                    (None, Some(_)) => panic!("{} appeared", other),
                    (None, None) => {}
                }
            }
            assert_eq!(gone, usize::from(!was && held == capacity));
        }
    }
}

#[test]
fn cache_of_capacity_zero_holds_nothing() {
    let mut cache = PayloadCache::new(0);
    cache.insert(s("a"), s("1"));
    assert_eq!(cache.lookup(&s("a")), None);
}

#[test]
fn cache_entries_keep_their_payloads() {
    let mut cache = PayloadCache::new(4);
    let names: Vec<String> = (0..50).map(|i| format!("n{}", i)).collect();
    for (i, name) in names.iter().enumerate() {
        cache.insert(name.clone(), format!("p{}", i));
        for (j, other) in names.iter().enumerate() {
            if let Some(payload) = cache.lookup(other) {
                assert!(j <= i);
                assert_eq!(payload, format!("p{}", j));
            }
        }
    }
}

#[test]
fn page_for_each_reply() {
    assert!(matches!(page_for(None), Page::Error(500)));
    assert!(matches!(page_for(Some(DataPkt::Error(502))), Page::Error(502)));
    assert!(matches!(page_for(Some(reply(parse(RSS_T)))), Page::Rss(_)));
    assert!(matches!(page_for(Some(reply(parse(ATOM_T)))), Page::Atom(_)));
}

#[test]
fn static_files_by_name() {
    let mut files = StaticFiles::new();
    files.collect(s("style.css"), s("body {}"));
    files.collect(s("app.js"), s("1"));
    files.collect(s("app.js"), s("2"));
    assert_eq!(files.servestatic(&s("style.css")), Ok(s("body {}")));
    assert_eq!(files.servestatic(&s("app.js")), Ok(s("2")));
    assert_eq!(files.servestatic(&s("missing")), Err(404));
}

#[test]
fn log_filters() {
    assert_eq!(log_filter(None), "off");
    assert_eq!(log_filter(Some(0)), "off");
    assert_eq!(log_filter(Some(1)), "error");
    assert_eq!(log_filter(Some(2)), "info");
    assert_eq!(log_filter(Some(3)), "debug");
    assert_eq!(log_filter(Some(4)), "off");
    assert_eq!(log_filter(Some(255)), "off");
}
