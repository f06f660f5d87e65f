use rss_watch::feed::FeedItem;
use rss_watch::template::{build_args, field_text, render_arg};

fn item(title: Option<&str>, link: Option<&str>) -> FeedItem {
    FeedItem { title: title.map(String::from), link: link.map(String::from), pub_date: None }
}

#[test]
fn render_arg_fills_in_title_and_link() {
    assert_eq!(render_arg("#TITLE", "Hello", "http://x"), "Hello");
    assert_eq!(render_arg("#LINK", "Hello", "http://x"), "http://x");
    assert_eq!(render_arg("#TITLE <#LINK>", "Hello", "http://x"), "Hello <http://x>");
    assert_eq!(render_arg("--url=#LINK", "Hello", "http://x"), "--url=http://x");
}

#[test]
fn render_arg_replaces_every_occurrence() {
    assert_eq!(render_arg("#TITLE#TITLE #TITLE", "ab", "l"), "abab ab");
    assert_eq!(render_arg("#LINK,#LINK,#TITLE,#LINK", "t", "l"), "l,l,t,l");
}

#[test]
fn render_arg_leaves_other_text_alone() {
    assert_eq!(render_arg("plain text", "t", "l"), "plain text");
    assert_eq!(render_arg("", "t", "l"), "");
    assert_eq!(render_arg("#title #Link #TITL #LIN", "t", "l"), "#title #Link #TITL #LIN");
    assert_eq!(render_arg("# TITLE", "t", "l"), "# TITLE");
    assert_eq!(render_arg("a#b#TITLEc", "t", "l"), "a#btc");
}

#[test]
fn render_arg_has_no_escape() {
    assert_eq!(render_arg("\\#TITLE", "t", "l"), "\\t");
    assert_eq!(render_arg("##TITLE", "t", "l"), "#t");
}

#[test]
fn render_arg_with_empty_values() {
    assert_eq!(render_arg("[#TITLE|#LINK]", "", ""), "[|]");
}

#[test]
fn render_arg_does_not_read_again_what_it_put_in() {
    assert_eq!(render_arg("#TITLE", "see #LINK", "http://x"), "see #LINK");
    assert_eq!(render_arg("#TITLE", "a#LINKb", "L"), "a#LINKb");
    assert_eq!(render_arg("#LINK", "t", "#TITLE"), "#TITLE");
    assert_eq!(render_arg("#TITLE #LINK", "#LINK", "#TITLE"), "#LINK #TITLE");
    assert_eq!(render_arg("#TITLE", "#TITLE", "l"), "#TITLE");
}

#[test]
fn render_arg_keeps_the_text_around_a_placeholder() {
    assert_eq!(render_arg("#TITLENK", "#LI", "X"), "#LINK");
    assert_eq!(render_arg("#TI#TITLETLE", "", "l"), "#TITLE");
    assert_eq!(render_arg("#LIN#TITLEK", "", "l"), "#LINK");
    assert_eq!(render_arg("#TIT#LINKLE", "t", ""), "#TITLE");
}

#[test]
fn render_arg_gives_the_same_argument_each_time() {
    let first = render_arg("say #TITLE at #LINK", "Hi", "http://x");
    let second = render_arg("say #TITLE at #LINK", "Hi", "http://x");
    assert_eq!(first, second);
    assert_eq!(first, "say Hi at http://x");
}

#[test]
fn render_arg_of_a_rendering_without_hash_changes_nothing() {
    let once = render_arg("say #TITLE at #LINK", "Hi", "http://x");
    assert_eq!(render_arg(&once, "Hi", "http://x"), once);
}

#[test]
fn render_arg_agrees_with_std_replacement_where_no_hash_is_put_in() {
    let templates = ["", "#TITLE", "#LINK", "x#TITLEy#LINKz", "#LINK#TITLE#LINK", "é#TITLEé"];
    let titles = ["", "T", "K", "ü", "two words"];
    let links = ["", "L", "#TITLE", "#LINK", "http://x/?a=1#top"];
    for template in templates {
        for title in titles {
            for link in links {
                assert_eq!(
                    render_arg(template, title, link),
                    template.replace("#TITLE", title).replace("#LINK", link)
                );
            }
        }
    }
}

#[test]
fn field_text_reads_an_absent_field_as_empty() {
    assert_eq!(field_text(&None), "");
    assert_eq!(field_text(&Some("abc".to_string())), "abc");
}

#[test]
fn build_args_renders_each_template_in_order() {
    let templates = Some(vec!["-t".to_string(), "#TITLE".to_string(), "-l".to_string(), "#LINK".to_string()]);
    let args = build_args(&templates, &item(Some("News"), Some("http://n")));
    assert_eq!(args, vec!["-t", "News", "-l", "http://n"]);
}

#[test]
fn build_args_hands_over_a_title_that_holds_a_placeholder_as_it_is() {
    let templates = Some(vec!["#TITLE".to_string()]);
    assert_eq!(build_args(&templates, &item(Some("a#LINKb"), Some("L"))), vec!["a#LINKb"]);
}

#[test]
fn build_args_without_templates_gives_no_arguments() {
    assert_eq!(build_args(&None, &item(Some("News"), Some("http://n"))), Vec::<String>::new());
    assert_eq!(build_args(&Some(vec![]), &item(Some("News"), Some("http://n"))), Vec::<String>::new());
}

#[test]
fn build_args_reads_absent_title_and_link_as_empty() {
    let templates = Some(vec!["<#TITLE>".to_string(), "<#LINK>".to_string()]);
    assert_eq!(build_args(&templates, &item(None, None)), vec!["<>", "<>"]);
    assert_eq!(build_args(&templates, &item(Some("t"), None)), vec!["<t>", "<>"]);
    assert_eq!(build_args(&templates, &item(None, Some("l"))), vec!["<>", "<l>"]);
}
