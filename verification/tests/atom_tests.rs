//! The Atom feed handler on the feed shape of the blog source. The entry's
//! CDATA body is abridged: the handler passes CDATA sections over, and no
//! assertion reads them.

use daily_bugle::handlers::parse_atom_feed;

#[test]
fn test_parse_xml_entries() {
    let xml = r#"<entry>
            <id>https://lucumr.pocoo.org/2025/9/29/90-percent/</id>
            <title>90%</title>
            <link href="https://lucumr.pocoo.org/2025/9/29/90-percent/" />
            <published>2025-09-29T00:00:00+00:00</published>
            <updated>2025-09-29T00:00:00+00:00</updated>
            <author>
              <name>Armin Ronacher</name>
            </author>
            <content type="html"><![CDATA[<blockquote>
        <p>&#8220;I think we will be there in three to six months, where AI is writing 90% of
        the code.&#8221;</p>
        </blockquote>
        <p><a href="/2025/6/4/changes/">Three months ago</a> I said that AI changes everything.  I
        came to that after plenty of skepticism.  There are still good reasons to doubt
        that AI will write all code, but my current reality is close.</p>
        ]]></content>
          </entry>"#;
    let entries = parse_atom_feed(xml).expect("Failed to parse xml content");
    assert_eq!(entries.len(), 1);
    let first = entries.first().unwrap();
    assert!(first.title == "90%");
    assert!(first.url == "https://lucumr.pocoo.org/2025/9/29/90-percent/");
}
