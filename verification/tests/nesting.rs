use rss_watch::feed::{parse_feed, FeedItem, FetchResult};
use rss_watch::nesting::{nesting_within_limit, MAX_NESTING};

const TOO_DEEP: &str = "the document is nested too deeply";

fn repeated(part: &str, times: usize) -> String {
    part.repeat(times)
}

fn within(body: &str) -> bool {
    nesting_within_limit(body.as_bytes())
}

#[test]
fn the_limit_is_two_hundred_and_fifty_six() {
    assert_eq!(MAX_NESTING, 256);
}

#[test]
fn nesting_counts_open_elements() {
    assert!(within(""));
    assert!(within("no markup at all"));
    assert!(within(&repeated("<c>", MAX_NESTING)));
    assert!(!within(&repeated("<c>", MAX_NESTING + 1)));
    assert!(within(&format!("{}{}", repeated("<c>", MAX_NESTING), repeated("</c>", MAX_NESTING))));
    assert!(!within(&format!(
        "{}{}",
        repeated("<c>", MAX_NESTING + 1),
        repeated("</c>", MAX_NESTING + 1)
    )));
}

#[test]
fn nesting_goes_down_at_end_tags() {
    assert!(within(&repeated("<a></a>", 5000)));
    assert!(within(&format!("{}{}", repeated("<a><b></b></a>", 500), repeated("<c>", MAX_NESTING))));
    assert!(!within(&format!(
        "{}{}",
        repeated("<a><b></b></a>", 500),
        repeated("<c>", MAX_NESTING + 1)
    )));
    assert!(within(&format!("<r>{}</r>", repeated("<a attr='v'>text</a >", 3000))));
}

#[test]
fn nesting_counts_an_empty_element_while_its_tag_is_read() {
    assert!(within(&repeated("<c/>", 5000)));
    assert!(within(&repeated("<c a=\"1\" />", 5000)));
    assert!(within(&format!("{}<e/>", repeated("<c>", MAX_NESTING - 1))));
    assert!(!within(&format!("{}<e/>", repeated("<c>", MAX_NESTING))));
}

#[test]
fn nesting_passes_over_comments_and_character_data() {
    assert!(within(&format!("<r><!-- {} --></r>", repeated("<c>", 5000))));
    assert!(within(&format!("<r><![CDATA[{}]]></r>", repeated("<p><br>", 5000))));
    assert!(within(&format!("<r><?style {} ?></r>", repeated("<c>", 5000))));
    assert!(within(&format!("<r a=\"{}\" b='>'></r>", repeated("<c>", 5000))));
    assert!(within(&repeated("<i><d><![CDATA[<p>one<br>two]]></d><!-- <x> --></i>", 5000)));
}

#[test]
fn nesting_is_not_lowered_by_end_tags_that_are_none() {
    let over = MAX_NESTING + 1;
    assert!(!within(&repeated("<c><!--</c>-->", over)));
    assert!(!within(&repeated("<c><![CDATA[</c>]]>", over)));
    assert!(!within(&repeated("<c><?p </c>?>", over)));
    assert!(!within(&repeated("<c a=\"</c>\">", over)));
    assert!(!within(&repeated("<c a='</c>'>", over)));
    assert!(!within(&repeated("<c><c></c</c>", over)));
    assert!(within(&repeated("<c><!--</c>--></c>", over)));
}

#[test]
fn nesting_reads_short_comments_as_the_parser_does() {
    let over = MAX_NESTING + 1;
    assert!(within(&format!("<!-->{}-->", repeated("<c>", 5000))));
    assert!(within(&format!("<!--->{}-->", repeated("<c>", 5000))));
    assert!(!within(&format!("<!---->{}", repeated("<c>", over))));
    assert!(!within(&format!("<![]]>{}", repeated("<c>", over))));
    assert!(!within(&format!("<?>{}", repeated("<c>", over))));
}

#[test]
fn nesting_follows_a_document_type_without_internal_subset() {
    let doctype = "<!DOCTYPE rss PUBLIC \"-//Netscape Communications//DTD RSS 0.91//EN\" \"http://my.netscape.com/publish/formats/rss-0.91.dtd\">";
    assert!(within(&format!("{}<rss>{}</rss>", doctype, repeated("<item><title>t</title></item>", 5000))));
    assert!(!within(&format!("{}{}", doctype, repeated("<c>", MAX_NESTING + 1))));
    assert!(within(&format!("<!doctype x \"a>b\" 'c>d'>{}", repeated("<a></a>", 5000))));
}

#[test]
fn nesting_follows_an_internal_subset_to_its_end() {
    let flat = repeated("<a></a>", 5000);
    assert!(within(&format!("<!DOCTYPE rss []><rss>{}</rss>", flat)));
    assert!(within(&format!("<!DOCTYPE rss [<!ENTITY a \"b\">]><rss>{}</rss>", flat)));
    assert!(within(&format!("<!DOCTYPE rss [<!ENTITY a \"]>{}\">] ><rss>{}</rss>", repeated("<c>", 5000), flat)));
    assert!(within(&format!("<!DOCTYPE rss [<!ATTLIST a b CDATA '>{}'>]><rss>{}</rss>", repeated("<c>", 5000), flat)));
    assert!(within(&format!("<!DOCTYPE rss [<!NOTATION n SYSTEM \">{}\">]><rss>{}</rss>", repeated("<c>", 5000), flat)));
    assert!(within(&format!("<!DOCTYPE rss [<!ELEMENT a (b|c)*><!-- ]>{} --><?p ]>{} ?>]><rss>{}</rss>", repeated("<c>", 5000), repeated("<c>", 5000), flat)));
    assert!(within(&format!("<!DOCTYPE rss [<x {}>] {} ><rss>{}</rss>", repeated("<c", 5000), repeated("<c", 5000), flat)));
}

#[test]
fn nesting_counts_again_where_an_internal_subset_has_ended() {
    let over = repeated("<c>", MAX_NESTING + 1);
    assert!(!within(&format!("<!DOCTYPE rss []>{}", over)));
    assert!(!within(&format!("<!DOCTYPE rss [<!ELEMENT a \">]>{}", over)));
    assert!(!within(&format!("<!DOCTYPE rss [<!ENT>]>{}", over)));
    assert!(!within(&format!("<!DOCTYPE rss [<?>?>]>{}", over)));
    assert!(!within(&format!("<!DOCTYPE rss [<!---->]>{}", over)));
    assert!(within(&format!("<!DOCTYPE rss [<!-->]>{}-->]>", over)));
    assert!(within(&format!("<!DOCTYPE rss [<?>]>{}?>]>", over)));
}

#[test]
fn nesting_after_a_declaration_that_is_none_counts_every_start_tag() {
    assert!(within(&format!("<!x>{}", repeated("<a></a>", MAX_NESTING))));
    assert!(!within(&format!("<!x>{}", repeated("<a></a>", MAX_NESTING + 1))));
}

#[test]
fn parse_feed_refuses_a_body_nested_too_deeply() {
    let body = format!("<rss><channel><a:b>{}", repeated("<c>", 200_000));
    assert_eq!(parse_feed(body.as_bytes()), FetchResult::Error(TOO_DEEP.to_string()));
    let closed = format!(
        "<rss version=\"2.0\"><channel><a:b>{}{}</a:b></channel></rss>",
        repeated("<c>", MAX_NESTING - 2),
        repeated("</c>", MAX_NESTING - 2)
    );
    assert_eq!(parse_feed(closed.as_bytes()), FetchResult::Error(TOO_DEEP.to_string()));
}

#[test]
fn parse_feed_refuses_deep_nesting_hidden_behind_comments() {
    let body = format!("<rss><channel><a:b>{}", repeated("<c><!--</c>-->", 100_000));
    assert_eq!(parse_feed(body.as_bytes()), FetchResult::Error(TOO_DEEP.to_string()));
}

#[test]
fn parse_feed_reads_a_body_nested_to_the_limit() {
    let body = format!(
        "<rss version=\"2.0\"><channel><title>T</title><item><title>deep</title><a:b>{}{}</a:b></item></channel></rss>",
        repeated("<c>", MAX_NESTING - 4),
        repeated("</c>", MAX_NESTING - 4)
    );
    assert!(nesting_within_limit(body.as_bytes()));
    assert_eq!(
        parse_feed(body.as_bytes()),
        FetchResult::Channel(vec![FeedItem { title: Some("deep".to_string()), link: None, pub_date: None }])
    );
}

#[test]
fn parse_feed_reads_an_extension_element_sixty_two_deep() {
    let body = format!(
        "<rss version=\"2.0\"><channel><title>T</title><a:b>{}{}</a:b><item><title>kept</title></item></channel></rss>",
        repeated("<c>", 62),
        repeated("</c>", 62)
    );
    assert_eq!(
        parse_feed(body.as_bytes()),
        FetchResult::Channel(vec![FeedItem { title: Some("kept".to_string()), link: None, pub_date: None }])
    );
}

#[test]
fn parse_feed_reads_every_item_behind_an_internal_subset() {
    for count in [0usize, 1, 65, 1000] {
        let body = format!(
            "<!DOCTYPE rss []><rss><channel>{}</channel></rss>",
            repeated("<item></item>", count)
        );
        match parse_feed(body.as_bytes()) {
            FetchResult::Channel(items) => assert_eq!(items.len(), count),
            FetchResult::Error(message) => panic!("{}", message),
        }
    }
}

#[test]
fn parse_feed_reads_items_in_order_behind_a_subset_with_declarations() {
    let body = "<?xml version=\"1.0\"?>\n<!DOCTYPE rss [\n<!ENTITY nbsp \"&#160;\">\n<!ENTITY odd \"]> <c>\">\n<!-- ]> -->\n<!ELEMENT rss (channel)>\n]>\n<rss version=\"2.0\"><channel><title>T</title><item><title>one</title></item><item><title>two</title></item><item><title>three</title></item></channel></rss>";
    match parse_feed(body.as_bytes()) {
        FetchResult::Channel(items) => {
            let titles: Vec<Option<&str>> = items.iter().map(|i| i.title.as_deref()).collect();
            assert_eq!(titles, vec![Some("one"), Some("two"), Some("three")]);
        }
        FetchResult::Error(message) => panic!("{}", message),
    }
}

#[test]
fn parse_feed_reports_an_unclosed_body_within_the_limit() {
    let body = format!("<rss><channel><a:b>{}", repeated("<c>", MAX_NESTING - 3));
    match parse_feed(body.as_bytes()) {
        FetchResult::Error(message) => assert_ne!(message, TOO_DEEP),
        FetchResult::Channel(items) => panic!("a channel of {} items", items.len()),
    }
}

#[test]
fn parse_feed_reads_markup_inside_character_data_as_text() {
    let body = format!(
        "<rss version=\"2.0\"><channel><title>T</title>{}</channel></rss>",
        repeated("<item><title><![CDATA[<b>bold</b> <br> & more]]></title><description><![CDATA[<p>a<br>b<img src=\"x\">]]></description></item>", 200)
    );
    match parse_feed(body.as_bytes()) {
        FetchResult::Channel(items) => {
            assert_eq!(items.len(), 200);
            assert_eq!(items[0].title.as_deref(), Some("<b>bold</b> <br> & more"));
        }
        FetchResult::Error(message) => panic!("{}", message),
    }
}
