use regex::Regex;
use sanvi::model::init::{
    assemble, config_file, init, links_maker, projfiles, read_line, sections, setting,
    settings_maker, InitError, Shape, DEFAULT_USERAGENT,
};

const FILE: &str = "template = /srv/tpl\narchive = /srv/archive\nuseragent = 'My Agent/1.0'\ndownload = 7\ncache-limit = 20\nclients = 4\n[RssLinks]\nNews, bbc, http://bbc/rss, Y\nNews, cnn, http://cnn/rss\n\nTech, lwn, http://lwn/rss, n\nTech, hn, http://hn/rss, yx\n";

fn s(text: &str) -> String {
    text.to_string()
}

fn chars(text: &str) -> Vec<char> {
    text.chars().collect()
}

#[test]
fn settings_all_given() {
    let t = settings_maker("template = /srv/tpl\narchive = /srv/archive\nuseragent = 'My Agent/1.0'\ndownload = 7\ncache-limit = 20\nclients = 4\n");
    assert_eq!(t.template, Some(s("/srv/tpl")));
    assert_eq!(t.archive, Some(s("/srv/archive")));
    assert_eq!(t.useragent, "My Agent/1.0");
    assert_eq!(t.download, 7);
    assert_eq!(t.cachesz, 20);
    assert_eq!(t.clients, 4);
}

#[test]
fn settings_defaults() {
    let t = settings_maker("");
    assert_eq!(t.template, None);
    assert_eq!(t.archive, None);
    assert_eq!(t.useragent, DEFAULT_USERAGENT);
    assert_eq!(
        t.useragent,
        "Mozilla/5.0 (Windows NT 10.0; Win64; x64; rv:126.0) Gecko/20100101 Firefox/126.1"
    );
    assert_eq!(t.download, 3);
    assert_eq!(t.cachesz, 10);
    assert_eq!(t.clients, 3);
}

#[test]
fn settings_bad_numbers_fall_back() {
    let t = settings_maker("download = many\ncache-limit = -3\nclients = 2.5\n");
    assert_eq!(t.download, 3);
    assert_eq!(t.cachesz, 10);
    assert_eq!(t.clients, 3);
}

#[test]
fn settings_first_place_with_a_value_counts() {
    assert_eq!(settings_maker("download = 5\ndownload = 6\n").download, 5);
    assert_eq!(settings_maker("download\ndownload x\n download=6 ").download, 6);
    assert_eq!(settings_maker("download =\n download=6 ").download, 3);
    assert_eq!(
        setting(&chars("download =\n download=6 "), "download", Shape::Word),
        Some(s("download=6"))
    );
    assert_eq!(settings_maker("predownload=8").download, 8);
    assert_eq!(settings_maker("download=\n\t 9x").download, 3);
    assert_eq!(settings_maker("download=\n\t 9 x").download, 9);
}

#[test]
fn setting_shapes() {
    assert_eq!(setting(&chars("k = v w"), "k", Shape::Word), Some(s("v")));
    assert_eq!(setting(&chars("k = 'v w' x"), "k", Shape::Quoted), Some(s("v w")));
    assert_eq!(setting(&chars("k = 'v w' x"), "k", Shape::Word), Some(s("'v")));
    assert_eq!(setting(&chars("k = ''; k='a'"), "k", Shape::Quoted), Some(s("a")));
    assert_eq!(setting(&chars("k = 'open"), "k", Shape::Quoted), None);
    assert_eq!(setting(&chars("k = v"), "k", Shape::Quoted), None);
    assert_eq!(setting(&chars("k v"), "k", Shape::Word), None);
    assert_eq!(setting(&chars("k ="), "k", Shape::Word), None);
    assert_eq!(setting(&chars(""), "k", Shape::Word), None);
    assert_eq!(setting(&chars("k\u{a0}=\u{2003}v\u{3000}"), "k", Shape::Word), Some(s("v")));
}

/// A small generator of pseudo-random texts over an alphabet.
struct Texts {
    state: u64,
    alphabet: Vec<char>,
}

impl Texts {
    fn new(seed: u64, alphabet: &str) -> Texts {
        Texts { state: seed, alphabet: alphabet.chars().collect() }
    }

    fn next(&mut self) -> u64 {
        self.state ^= self.state << 13;
        self.state ^= self.state >> 7;
        self.state ^= self.state << 17;
        self.state
    }

    fn text(&mut self, longest: u64) -> String {
        let len = self.next() % (longest + 1);
        let mut text = String::new();
        for _ in 0..len {
            let pick = (self.next() % self.alphabet.len() as u64) as usize;
            text.push(self.alphabet[pick]);
        }
        text
    }
}

fn group(re: &Regex, hay: &str, i: usize) -> Option<String> {
    re.captures(hay).and_then(|c| c.get(i)).map(|m| m.as_str().to_string())
}

#[test]
fn word_settings_agree_with_their_patterns() {
    let keys = ["template", "archive", "download", "cache-limit", "clients"];
    let mut texts = Texts::new(0x9E3779B97F4A7C15, "ab= \t\n'x1");
    for key in keys {
        let re = Regex::new(&format!(r"\s*{}\s*=\s*([^\s]+)\s*", key)).unwrap();
        for round in 0..4000 {
            let mut hay = texts.text(12);
            for _ in 0..(round % 3) {
                hay.push_str(key);
                hay.push_str(&texts.text(6));
            }
            assert_eq!(setting(&chars(&hay), key, Shape::Word), group(&re, &hay, 1), "{:?}", hay);
        }
    }
}

#[test]
fn quoted_setting_agrees_with_its_pattern() {
    let re = Regex::new(r"\s*useragent\s*=\s*\'([^\']+)\'").unwrap();
    let mut texts = Texts::new(0xD1B54A32D192ED03, "a= \n''x");
    for round in 0..20000 {
        let mut hay = texts.text(8);
        for _ in 0..(round % 3) {
            hay.push_str("useragent");
            hay.push_str(&texts.text(8));
        }
        assert_eq!(
            setting(&chars(&hay), "useragent", Shape::Quoted),
            group(&re, &hay, 1),
            "{:?}",
            hay
        );
    }
}

#[test]
fn source_lines_agree_with_their_pattern() {
    let re =
        Regex::new(r"^([^,]+)\s*,\s*([^,]+)\s*,\s*([^,]+)\s*(?:$|,\s*([A-Za-z]{1,2})$)").unwrap();
    let mut texts = Texts::new(0x2545F4914F6CDD1D, "ab ,,,Yy\tz1");
    for _ in 0..40000 {
        let line = texts.text(14);
        let expected = re.captures(&line).map(|c| {
            (
                c.get(1).map(|m| m.as_str().to_string()),
                c.get(2).map(|m| m.as_str().to_string()),
                c.get(3).map(|m| m.as_str().to_string()),
                c.get(4).map(|m| m.as_str().to_string()),
            )
        });
        let found = read_line(&chars(&line))
            .map(|l| (Some(l.heading), Some(l.name), Some(l.link), l.options));
        assert_eq!(found, expected, "{:?}", line);
    }
}

#[test]
fn source_line_fields() {
    let line = read_line(&chars(" Top news ,  bbc , http://bbc/rss ,\tYn")).unwrap();
    assert_eq!(line.heading, " Top news ");
    assert_eq!(line.name, "bbc ");
    assert_eq!(line.link, "http://bbc/rss ");
    assert_eq!(line.options, Some(s("Yn")));
    let line = read_line(&chars("h,  ,u")).unwrap();
    assert_eq!(line.name, " ");
    assert_eq!(line.options, None);
    assert!(read_line(&chars("h,n")).is_none());
    assert!(read_line(&chars(",n,u")).is_none());
    assert!(read_line(&chars("h,,u")).is_none());
    assert!(read_line(&chars("h,n,")).is_none());
    assert!(read_line(&chars("h,n,u,")).is_none());
    assert!(read_line(&chars("h,n,u,abc")).is_none());
    assert!(read_line(&chars("h,n,u,y ")).is_none());
    assert!(read_line(&chars("h,n,u,1")).is_none());
    assert!(read_line(&chars("h,n,u,y,z")).is_none());
}

#[test]
fn links_are_grouped_and_flagged() {
    let (headings, names, archive_lst) = links_maker("News, bbc, http://bbc/rss, Y\nNews, cnn, http://cnn/rss\n\nTech, lwn, http://lwn/rss, n\nTech, hn, http://hn/rss, yx\n").unwrap();
    assert_eq!(headings.len(), 2);
    assert_eq!(headings.key(0), "News");
    assert_eq!(headings.value(0), &vec![s("bbc"), s("cnn")]);
    assert_eq!(headings.key(1), "Tech");
    assert_eq!(headings.value(1), &vec![s("lwn"), s("hn")]);
    assert_eq!(names.len(), 4);
    assert_eq!(names.get(&s("bbc")), Some(&s("http://bbc/rss")));
    assert_eq!(names.get(&s("cnn")), Some(&s("http://cnn/rss")));
    assert_eq!(names.get(&s("lwn")), Some(&s("http://lwn/rss")));
    assert_eq!(names.get(&s("hn")), Some(&s("http://hn/rss")));
    assert_eq!(names.get(&s("nope")), None);
    assert_eq!(archive_lst, vec![s("bbc"), s("hn")]);
}

#[test]
fn links_refuse_duplicates_and_bad_lines() {
    assert_eq!(links_maker("h, a, u\nh, b, u\ng, a, v\n").unwrap_err(), InitError::Duplicate(2));
    assert_eq!(links_maker("h, a, u\nonly two, fields\n").unwrap_err(), InitError::Line(1));
    assert_eq!(links_maker("h, a, u, toolong\n").unwrap_err(), InitError::Line(0));
    assert_eq!(links_maker("h, a, u, y, z\n").unwrap_err(), InitError::Line(0));
    assert_eq!(links_maker("h, a, u\r\n").unwrap().1.get(&s("a")), Some(&s("u\r")));
    assert_eq!(links_maker("h, a, u, y\r\n").unwrap_err(), InitError::Line(0));
}

#[test]
fn links_empty_section() {
    let (headings, names, archive_lst) = links_maker("\n\n").unwrap();
    assert_eq!(headings.len(), 0);
    assert_eq!(names.len(), 0);
    assert!(archive_lst.is_empty());
}

#[test]
fn init_reads_both_sections() {
    let (client, server) = init(FILE).unwrap();
    assert_eq!(client.templatedir, "/srv/tpl");
    assert_eq!(client.clients, 4);
    assert_eq!(client.headings.len(), 2);
    assert_eq!(server.names.len(), 4);
    assert_eq!(server.archive_lst, vec![s("bbc"), s("hn")]);
    assert_eq!(server.archivedir, Some(s("/srv/archive")));
    assert_eq!(server.useragent, "My Agent/1.0");
    assert_eq!(server.download, 7);
    assert_eq!(server.cachesz, 20);
}

#[test]
fn init_wants_exactly_one_marker() {
    assert!(matches!(init("template = /t\n"), Err(InitError::Sections)));
    assert!(matches!(init("[RssLinks]\n[RssLinks]\n"), Err(InitError::Sections)));
}

#[test]
fn init_passes_link_errors_on() {
    assert!(matches!(
        init("template = /t\n[RssLinks]\nh, a, u\nh, a, v\n"),
        Err(InitError::Duplicate(1))
    ));
}

#[test]
fn assemble_uses_fallback_only_without_template() {
    let (tunables, (headings, names, archive_lst)) = sections("[RssLinks]\nh, a, u\n").unwrap();
    let (client, _) = assemble(tunables, headings, names, archive_lst, Some(s("/fallback"))).unwrap();
    assert_eq!(client.templatedir, "/fallback");
    let (tunables, (headings, names, archive_lst)) =
        sections("template = /t\n[RssLinks]\nh, a, u\n").unwrap();
    let (client, _) = assemble(tunables, headings, names, archive_lst, Some(s("/fallback"))).unwrap();
    assert_eq!(client.templatedir, "/t");
    let (tunables, (headings, names, archive_lst)) = sections("[RssLinks]\nh, a, u\n").unwrap();
    assert!(matches!(
        assemble(tunables, headings, names, archive_lst, None),
        Err(InitError::NoProjectDirs)
    ));
}

#[test]
fn config_file_prefers_the_given_path() {
    assert_eq!(config_file(Some(s("/etc/sanvi.conf"))), Some(s("/etc/sanvi.conf")));
}

#[test]
fn default_files_hang_together() {
    if let Some((file, dir)) = projfiles() {
        assert!(file.starts_with(&dir));
        assert!(file.ends_with("sanvi.conf"));
        assert_eq!(config_file(None), Some(file));
    } else {
        assert_eq!(config_file(None), None);
    }
}

#[test]
fn init_without_template_takes_the_platform_directory() {
    match (init("[RssLinks]\nh, a, u\n"), projfiles()) {
        (Ok((client, _)), Some((_, dir))) => assert_eq!(client.templatedir, dir),
        (Err(e), None) => assert_eq!(e, InitError::NoProjectDirs),
        (r, _) => panic!("unexpected outcome {:?}", r.map(|(client, _)| client.templatedir)),
    }
}

#[test]
fn whitespace_is_what_the_patterns_call_whitespace() {
    let space = Regex::new(r"^\s$").unwrap();
    let mut text = String::new();
    for code in 0u32..0x11000 {
        if let Some(c) = char::from_u32(code) {
            text.clear();
            text.push(c);
            assert_eq!(sanvi::text::is_whitespace(c), space.is_match(&text), "U+{:04X}", code);
        }
    }
}

#[test]
fn settings_agree_with_their_patterns_on_unicode_text() {
    let re = Regex::new(r"\s*clients\s*=\s*([^\s]+)\s*").unwrap();
    let mut texts = Texts::new(0x6A09E667F3BCC909, "é=\u{a0}\u{2003}\u{3000}\u{85}9'\u{1680}x");
    for round in 0..8000 {
        let mut hay = texts.text(8);
        for _ in 0..(round % 3) {
            hay.push_str("clients");
            hay.push_str(&texts.text(6));
        }
        assert_eq!(setting(&chars(&hay), "clients", Shape::Word), group(&re, &hay, 1), "{:?}", hay);
    }
}
