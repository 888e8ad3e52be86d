use tgx::html::tree::{a, Tree};

#[test]
fn one_space_per_level() {
    let mut t = Tree::new();
    t.open("a", &[]);
    t.open("b", &[]);
    t.close("b");
    t.close("a");
    assert_eq!(t.as_str(), "<a>\n\n <b>\n\n </b>\n\n</a>\n");
}

#[test]
fn a_blank_line_separates_two_tag_lines() {
    let mut t = Tree::new();
    t.open("div", &[]);
    t.open("div", &[]);
    assert_eq!(t.as_str(), "<div>\n\n <div>\n");
}

#[test]
fn text_sits_at_column_zero_with_no_blank_lines_around_it() {
    let mut t = Tree::new();
    t.open("div", &[]);
    t.text("hello");
    t.close("div");
    assert_eq!(t.as_str(), "<div>\nhello\n</div>\n");
}

#[test]
fn leaf_is_open_text_close() {
    let mut t = Tree::new();
    t.leaf("title", "Exported Data", &[]);
    assert_eq!(t.as_str(), "<title>\nExported Data\n</title>\n");
}

#[test]
fn attributes_are_alphabetical_not_insertion_ordered() {
    let mut t = Tree::new();
    t.void(
        "meta",
        &[a("name", "viewport"), a("content", "width=device-width")],
    );
    assert_eq!(
        t.as_str(),
        "<meta content=\"width=device-width\" name=\"viewport\"/>\n"
    );
}

#[test]
fn the_reference_head_ordering_is_reproduced() {
    let mut t = Tree::new();
    t.void(
        "link",
        &[a("rel", "stylesheet"), a("href", "css/style.css")],
    );
    assert_eq!(
        t.as_str(),
        "<link href=\"css/style.css\" rel=\"stylesheet\"/>\n"
    );
}

#[test]
fn attribute_values_are_escaped() {
    let mut t = Tree::new();
    t.open("div", &[a("title", "a\"b<c")]);
    assert!(t.as_str().contains("title=\"a&quot;b&lt;c\""));
}

#[test]
fn close_never_underflows() {
    let mut t = Tree::new();
    t.close("div");
    assert_eq!(t.as_str(), "</div>\n");
}

#[test]
fn the_reference_head_is_reproduced_byte_for_byte() {
    let mut t = Tree::new();
    t.text("<!DOCTYPE html>");
    t.open("html", &[]);
    t.open("head", &[]);
    t.void("meta", &[a("charset", "utf-8")]);
    t.text("<title>Exported Data</title>");
    t.void(
        "meta",
        &[
            a("content", "width=device-width, initial-scale=1.0"),
            a("name", "viewport"),
        ],
    );
    t.void(
        "link",
        &[a("href", "css/style.css"), a("rel", "stylesheet")],
    );
    t.open(
        "script",
        &[a("src", "js/script.js"), a("type", "text/javascript")],
    );
    t.close("script");
    t.close("head");

    let expect = [
        "<!DOCTYPE html>\n",
        "<html>\n",
        "\n",
        " <head>\n",
        "\n",
        "  <meta charset=\"utf-8\"/>\n",
        "<title>Exported Data</title>\n",
        "  <meta content=\"width=device-width, initial-scale=1.0\" name=\"viewport\"/>\n",
        "\n",
        "  <link href=\"css/style.css\" rel=\"stylesheet\"/>\n",
        "\n",
        "  <script src=\"js/script.js\" type=\"text/javascript\">\n",
        "\n",
        "  </script>\n",
        "\n",
        " </head>\n",
    ]
    .join("");
    assert_eq!(t.as_str(), expect);
}

#[test]
fn equal_names_keep_their_order_and_raw_tags_count_as_tags() {
    let mut t = Tree::at(1);
    assert_eq!(t.indent(), 1);
    t.raw_tag("<!x>");
    t.void("i", &[a("b", "2"), a("a", "1"), a("b", "1")]);
    assert_eq!(t.indent(), 1);
    assert_eq!(t.into_string(), " <!x>\n\n <i a=\"1\" b=\"2\" b=\"1\"/>\n");
    assert_eq!(Tree::default().as_str(), "");
}

#[test]
fn the_order_attributes_are_given_in_does_not_matter() {
    let mut t = Tree::new();
    t.open("div", &[a("id", "m1"), a("class", "message")]);
    let mut u = Tree::new();
    u.open("div", &[a("class", "message"), a("id", "m1")]);
    assert_eq!(t.as_str(), u.as_str());
    assert_eq!(t.as_str(), "<div class=\"message\" id=\"m1\">\n");
}
