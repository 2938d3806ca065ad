use linzklar::lang::Lang;
use linzklar::lenticular::Error;
use linzklar::lenticular::Lenticular;
use linzklar::markup::generate_toc;
use linzklar::markup::outline;
use linzklar::markup::render_pairs;
use linzklar::markup::write_page;
use linzklar::markup::Article;
use linzklar::markup::Bar;
use linzklar::markup::IndentedStr;
use linzklar::markup::LangEntry;
use linzklar::markup::LinziPortion;

fn s(text: &str) -> String {
    text.to_string()
}

fn lines_of(blocks: &[IndentedStr]) -> Vec<String> {
    let mut out = Vec::new();
    for b in blocks {
        out.extend(b.strs());
    }
    out
}

fn between(html: &str, open: &str) -> Vec<String> {
    let mut out = Vec::new();
    let mut rest = html;
    while let Some(at) = rest.find(open) {
        let tail = &rest[at + open.len()..];
        let end = tail.find('"').unwrap();
        out.push(tail[..end].to_string());
        rest = &tail[end..];
    }
    out
}

fn links() -> Vec<(String, String)> {
    vec![
        (s("アイル語"), s("https://example.org/old")),
        (s("パイグ語"), s("https://example.org/pekzep")),
        (s("アイル語"), s("https://example.org/air")),
    ]
}

fn portion() -> LinziPortion {
    LinziPortion {
        init: vec![Bar::DivText(s("総画：4")), Bar::DivTexts(vec![s("a"), s("b")])],
        v1: vec![
            (s("字源"), Bar::DivText(s("象形。"))),
            (s("意義"), Bar::List { ordered: true, content: vec![s("火"), s("炎")] }),
        ],
        grau_prua_yr: s("img/huo.png"),
        v2: vec![(s("異体"), Bar::List { ordered: false, content: vec![s("灬")] })],
    }
}

#[test]
fn line_is_one_line() {
    assert_eq!(IndentedStr::ls("<hr>").strs(), vec![s("<hr>")]);
    assert_eq!(IndentedStr::ls("<hr>").to_string(), "<hr>");
}

#[test]
fn header_with_anchor() {
    assert_eq!(
        IndentedStr::with_toc("h3", 7, "発音").to_string(),
        "<h3><a name=\"TOC--7\"></a>発音</h3>"
    );
    assert_eq!(
        IndentedStr::with_toc("h2", 0, "x").to_string(),
        "<h2><a name=\"TOC--0\"></a>x</h2>"
    );
    assert_eq!(
        IndentedStr::with_toc("h2", 1234567890, "x").to_string(),
        "<h2><a name=\"TOC--1234567890\"></a>x</h2>"
    );
}

#[test]
fn element_with_one_child() {
    let t = IndentedStr::c1("div", IndentedStr::ls("<hr>"));
    assert_eq!(t.strs(), vec![s("<div>"), s("  <hr>"), s("</div>")]);
    assert_eq!(t.to_string(), "<div>\n  <hr>\n</div>");
}

#[test]
fn element_without_children() {
    let t = IndentedStr::c("ul", Vec::new());
    assert_eq!(t.strs(), vec![s("<ul>"), s("</ul>")]);
}

#[test]
fn nested_elements_indent_by_two_spaces_each() {
    let t = IndentedStr::c(
        "article",
        vec![
            IndentedStr::c("section", vec![IndentedStr::ls("a"), IndentedStr::c1("div", IndentedStr::ls("b"))]),
            IndentedStr::Tag("p", s(" class=\"x\">"), vec![IndentedStr::Line(s("c"))]),
        ],
    );
    assert_eq!(
        t.to_string(),
        "<article>\n  <section>\n    a\n    <div>\n      b\n    </div>\n  </section>\n  <p class=\"x\">\n    c\n  </p>\n</article>"
    );
}

#[test]
fn paragraph_block() {
    assert_eq!(lines_of(&Bar::DivText(s("x<y")).render()), vec![s("<div>x<y</div>")]);
}

#[test]
fn paragraphs_block() {
    let b = Bar::DivTexts(vec![s("a"), s("b"), s("c")]);
    assert_eq!(
        lines_of(&b.render()),
        vec![s("<div>a</div>"), s("<div>b</div>"), s("<div>c</div>")]
    );
    assert_eq!(Bar::DivTexts(Vec::new()).render().len(), 0);
}

#[test]
fn list_blocks() {
    let ordered = Bar::List { ordered: true, content: vec![s("a"), s("b")] };
    assert_eq!(
        lines_of(&ordered.render()),
        vec![s("<ol>"), s("  <li>a</li>"), s("  <li>b</li>"), s("</ol>")]
    );
    let plain = Bar::List { ordered: false, content: vec![s("a")] };
    assert_eq!(lines_of(&plain.render()), vec![s("<ul>"), s("  <li>a</li>"), s("</ul>")]);
}

#[test]
fn titled_blocks_take_the_next_numbers() {
    let pairs = vec![(s("一"), Bar::DivText(s("x"))), (s("二"), Bar::DivText(s("y")))];
    let mut ind = 4;
    let mut out = Vec::new();
    render_pairs(&pairs, &mut ind, &mut out);
    assert_eq!(ind, 6);
    assert_eq!(
        lines_of(&out),
        vec![
            s("<h3><a name=\"TOC--5\"></a>一</h3>"),
            s("<div>x</div>"),
            s("<h3><a name=\"TOC--6\"></a>二</h3>"),
            s("<div>y</div>"),
        ]
    );
}

#[test]
fn empty_title_has_no_anchor_and_takes_no_number() {
    let pairs = vec![(s(""), Bar::DivText(s("x")))];
    let mut ind = 3;
    let mut out = Vec::new();
    render_pairs(&pairs, &mut ind, &mut out);
    assert_eq!(ind, 3);
    assert_eq!(lines_of(&out), vec![s("<h3></h3>"), s("<div>x</div>")]);
}

#[test]
fn empty_title_leaves_later_anchors_as_they_were() {
    let with = vec![
        (s("一"), Bar::DivText(s("a"))),
        (s(""), Bar::DivText(s("x"))),
        (s("二"), Bar::DivText(s("b"))),
    ];
    let without = vec![(s("一"), Bar::DivText(s("a"))), (s("二"), Bar::DivText(s("b")))];
    let (mut i1, mut i2) = (0, 0);
    let (mut o1, mut o2) = (Vec::new(), Vec::new());
    render_pairs(&with, &mut i1, &mut o1);
    render_pairs(&without, &mut i2, &mut o2);
    assert_eq!(i1, i2);
    let mut expected = lines_of(&o2);
    expected.insert(2, s("<h3></h3>"));
    expected.insert(3, s("<div>x</div>"));
    assert_eq!(lines_of(&o1), expected);
    assert_eq!(lines_of(&o1)[4], "<h3><a name=\"TOC--2\"></a>二</h3>");
}

#[test]
fn character_section() {
    let mut ind = 0;
    let got = lines_of(&portion().render(&mut ind));
    assert_eq!(ind, 3);
    assert_eq!(
        got,
        vec![
            s("<h2><a name=\"TOC--\"></a>燐字</h2>"),
            s("<div>"),
            s("  <hr>"),
            s("</div>"),
            s("<div>総画：4</div>"),
            s("<div>a</div>"),
            s("<div>b</div>"),
            s("<h3><a name=\"TOC--1\"></a>字源</h3>"),
            s("<div>象形。</div>"),
            s("<h3><a name=\"TOC--2\"></a>意義</h3>"),
            s("<ol>"),
            s("  <li>火</li>"),
            s("  <li>炎</li>"),
            s("</ol>"),
            s("<div></div>"),
            s("<div><img src=\"img/huo.png\" width=\"200\" height=\"91\" border=\"0\"></div>"),
            s("<div></div>"),
            s("<h3><a name=\"TOC--3\"></a>異体</h3>"),
            s("<ul>"),
            s("  <li>灬</li>"),
            s("</ul>"),
            s("<div><br></div>"),
        ]
    );
}

#[test]
fn character_section_without_anything() {
    let l = LinziPortion { init: Vec::new(), v1: Vec::new(), grau_prua_yr: s(""), v2: Vec::new() };
    let mut ind = 9;
    let got = lines_of(&l.render(&mut ind));
    assert_eq!(ind, 9);
    assert_eq!(
        got,
        vec![
            s("<h2><a name=\"TOC--\"></a>燐字</h2>"),
            s("<div>"),
            s("  <hr>"),
            s("</div>"),
            s("<div></div>"),
            s("<div><img src=\"\" width=\"200\" height=\"91\" border=\"0\"></div>"),
            s("<div></div>"),
            s("<div><br></div>"),
        ]
    );
}

#[test]
fn body_anchors_match_the_table_of_contents() {
    let l = LinziPortion {
        init: Vec::new(),
        v1: vec![(s("字源"), Bar::DivText(s("a"))), (s("意義"), Bar::DivText(s("b")))],
        grau_prua_yr: s("x.png"),
        v2: Vec::new(),
    };
    let toc = generate_toc(vec![(s("燐字"), vec![s("字源"), s("意義")])]);
    let mut ind = 0;
    let body = lines_of(&l.render(&mut ind)).join("\n");
    assert_eq!(between(&body, "name=\"TOC--"), vec!["", "1", "2"]);
    assert_eq!(between(&toc, "href=\"#TOC--"), vec!["", "1", "2"]);
}

#[test]
fn language_section() {
    let e = LangEntry {
        lang: Lang(s("アイル語")),
        contents: vec![(s("発音"), Bar::DivText(s("huo"))), (s(""), Bar::DivText(s("note")))],
    };
    let mut ind = 3;
    let got = lines_of(&e.render("https://example.org/air", &mut ind));
    assert_eq!(ind, 5);
    assert_eq!(
        got,
        vec![
            s("<h2><a name=\"TOC--4\"></a><a href=\"https://example.org/air\">アイル語</a></h2>"),
            s("<div>"),
            s("  <hr>"),
            s("</div>"),
            s("<h3><a name=\"TOC--5\"></a>発音</h3>"),
            s("<div>huo</div>"),
            s("<h3></h3>"),
            s("<div>note</div>"),
            s("<div><br></div>"),
        ]
    );
}

#[test]
fn language_addresses() {
    let table = links();
    assert_eq!(Lang(s("パイグ語")).url(&table), "https://example.org/pekzep");
    assert_eq!(Lang(s("アイル語")).url(&table), "https://example.org/air");
    assert_eq!(Lang(s("バート語")).url(&table), "");
    assert_eq!(Lang(s("バート語")).find_url(&table), None);
    assert_eq!(Lang(s("パイグ語")).find_url(&table), Some(s("https://example.org/pekzep")));
    assert_eq!(Lang(s("x")).url(&Vec::new()), "");
    assert_eq!(Lang(s("アイル語")).ja(), "アイル語");
}

#[test]
fn whole_page() {
    let article = Article {
        l: portion(),
        dat: vec![
            LangEntry {
                lang: Lang(s("アイル語")),
                contents: vec![(s("発音"), Bar::DivText(s("huo"))), (s("動詞"), Bar::DivText(s("燃える")))],
            },
            LangEntry { lang: Lang(s("未知語")), contents: vec![(s("名詞"), Bar::DivText(s("火")))] },
        ],
    };
    let page = write_page("火", article, &links());
    assert_eq!(page.path, "docs/火 - 燐字海.html");
    assert_eq!(between(&page.toc, "href=\"#TOC--"), vec!["", "1", "2", "3", "4", "5", "6", "7", "8"]);
    assert_eq!(between(&page.content, "name=\"TOC--"), vec!["", "1", "2", "3", "4", "5", "6", "7", "8"]);
    assert!(page.toc.contains("<a href=\"#TOC--4\"><strong>2 </strong>アイル語</a>"));
    assert!(page.toc.contains("<a href=\"#TOC--8\"><strong>3.1\n          </strong>名詞</a>"));
    let body: Vec<&str> = page.content.split('\n').collect();
    assert_eq!(body[0], "<article>");
    assert_eq!(body[1], "  <section>");
    assert_eq!(body[2], "    <h2><a name=\"TOC--\"></a>燐字</h2>");
    assert_eq!(body[3], "    <div>");
    assert_eq!(body[4], "      <hr>");
    assert_eq!(body[24], "  </section>");
    assert_eq!(body[25], "  <section>");
    assert_eq!(
        body[26],
        "    <h2><a name=\"TOC--4\"></a><a href=\"https://example.org/air\">アイル語</a></h2>"
    );
    assert!(page.content.contains("    <h2><a name=\"TOC--7\"></a><a href=\"\">未知語</a></h2>"));
    assert!(page.content.contains("    <h3><a name=\"TOC--8\"></a>名詞</h3>\n    <div>火</div>\n    <div><br></div>\n  </section>\n</article>"));
    assert_eq!(body.len(), 46);
}

#[test]
fn outline_skips_empty_titles_of_the_character_only() {
    let article = Article {
        l: LinziPortion {
            init: Vec::new(),
            v1: vec![(s(""), Bar::DivText(s("a"))), (s("字源"), Bar::DivText(s("b")))],
            grau_prua_yr: s("x.png"),
            v2: vec![(s("意義"), Bar::DivText(s("c"))), (s(""), Bar::DivText(s("d")))],
        },
        dat: vec![LangEntry {
            lang: Lang(s("アイル語")),
            contents: vec![(s(""), Bar::DivText(s("e"))), (s("発音"), Bar::DivText(s("f")))],
        }],
    };
    assert_eq!(
        outline(&article),
        vec![(s("燐字"), vec![s("字源"), s("意義")]), (s("アイル語"), vec![s(""), s("発音")])]
    );
    let page = write_page("火", article, &Vec::new());
    assert_eq!(between(&page.toc, "href=\"#TOC--"), vec!["", "1", "2", "3", "4", "5"]);
    assert_eq!(between(&page.content, "name=\"TOC--"), vec!["", "1", "2", "3", "4"]);
}

#[test]
fn article_is_rewritten_throughout() {
    let article = Article {
        l: LinziPortion {
            init: vec![Bar::DivText(s("【火】"))],
            v1: vec![(s("【字】源"), Bar::DivTexts(vec![s("【水】")]))],
            grau_prua_yr: s("x.png"),
            v2: vec![(s("t"), Bar::List { ordered: true, content: vec![s("【木】")] })],
        },
        dat: vec![LangEntry {
            lang: Lang(s("【語】")),
            contents: vec![(s("発音"), Bar::DivText(s("【金】")))],
        }],
    };
    let got = article.lenticular_to_link().unwrap();
    let a = |c: char| format!("<a href=\"{}%20-%20燐字海.html\">{}</a>", c, c);
    assert!(matches!(&got.l.init[0], Bar::DivText(t) if *t == a('火')));
    assert_eq!(got.l.v1[0].0, format!("{}源", a('字')));
    assert!(matches!(&got.l.v1[0].1, Bar::DivTexts(v) if *v == vec![a('水')]));
    assert_eq!(got.l.grau_prua_yr, "x.png");
    assert!(matches!(&got.l.v2[0].1, Bar::List { ordered: true, content } if *content == vec![a('木')]));
    assert_eq!(got.dat[0].lang.0, "【語】");
    assert!(matches!(&got.dat[0].contents[0].1, Bar::DivText(t) if *t == a('金')));
}

#[test]
fn article_reports_every_malformed_text() {
    let article = Article {
        l: LinziPortion {
            init: vec![Bar::DivText(s("i】"))],
            v1: vec![(s("【a"), Bar::DivTexts(vec![s("ok"), s("【【")]))],
            grau_prua_yr: s("】.png"),
            v2: vec![(s("fine"), Bar::List { ordered: false, content: vec![s("【b")] })],
        },
        dat: vec![
            LangEntry { lang: Lang(s("】")), contents: vec![(s("t】"), Bar::DivText(s("ok")))] },
            LangEntry { lang: Lang(s("x")), contents: vec![(s("ok"), Bar::DivText(s("【z")))] },
        ],
    };
    let err = article.lenticular_to_link().unwrap_err();
    let mut got = Vec::new();
    for e in &err {
        match e {
            Error::MismatchedRightLenticular(t) => got.push(format!("R:{}", t)),
            Error::MismatchedLeftLenticular(t) => got.push(format!("L:{}", t)),
            Error::LenticularInsideLenticular(t) => got.push(format!("N:{}", t)),
        }
    }
    assert_eq!(got, vec!["R:i】", "L:【a", "N:【【", "R:】.png", "L:【b", "R:t】", "L:【z"]);
}

#[test]
fn page_of_a_well_formed_article() {
    let article = Article {
        l: LinziPortion {
            init: vec![Bar::DivText(s("【火】"))],
            v1: vec![(s("【】"), Bar::DivText(s("a"))), (s("字源"), Bar::DivText(s("b")))],
            grau_prua_yr: s("x.png"),
            v2: Vec::new(),
        },
        dat: vec![LangEntry { lang: Lang(s("アイル語")), contents: Vec::new() }],
    };
    let page = linzklar::page::build_page("火", &article, &links()).unwrap();
    assert_eq!(page.path, "docs/火 - 燐字海.html");
    assert!(page.content.contains("    <div><a href=\"火%20-%20燐字海.html\">火</a></div>\n    <h3></h3>\n    <div>a</div>\n    <h3><a name=\"TOC--1\"></a>字源</h3>"));
    assert_eq!(between(&page.toc, "href=\"#TOC--"), vec!["", "1", "2"]);
    assert_eq!(between(&page.content, "name=\"TOC--"), vec!["", "1", "2"]);
}

#[test]
fn no_page_for_a_malformed_article() {
    let article = Article {
        l: LinziPortion {
            init: vec![Bar::DivText(s("fine"))],
            v1: Vec::new(),
            grau_prua_yr: s("x.png"),
            v2: vec![(s("t"), Bar::DivText(s("【a")))],
        },
        dat: vec![LangEntry {
            lang: Lang(s("アイル語")),
            contents: vec![(s("b】"), Bar::DivText(s("ok")))],
        }],
    };
    let err = linzklar::page::build_page("火", &article, &links()).unwrap_err();
    assert_eq!(err.len(), 2);
    assert!(matches!(&err[0], Error::MismatchedLeftLenticular(t) if t == "【a"));
    assert!(matches!(&err[1], Error::MismatchedRightLenticular(t) if t == "b】"));
}

#[test]
fn anchors_of_an_ordinary_article_can_be_counted() {
    let article = Article { l: portion(), dat: Vec::new() };
    assert!(linzklar::markup::anchors_fit(&article));
}

#[test]
fn pass_and_errors_are_at_hand_beside_the_article() {
    let err = linzklar::markup::Lenticular::lenticular_to_link(&s("【")).unwrap_err();
    assert!(matches!(
        &err[0],
        linzklar::markup::LenticularError::MismatchedLeftLenticular(t) if t == "【"
    ));
}

#[test]
fn trees_can_be_copied() {
    let t = IndentedStr::c("a", vec![IndentedStr::ls("b"), IndentedStr::c1("c", IndentedStr::ls("d"))]);
    assert_eq!(t.clone().strs(), t.strs());
    assert_eq!(format!("{:?}", IndentedStr::ls("x")), "Line(\"x\")");
}
