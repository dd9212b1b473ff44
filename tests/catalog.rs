use gm_master::catalog::{
    parse_trainer_detail, parse_trainer_list, trainer_from_detail, trainer_from_listing,
    url_last_segment,
};
use gm_master::error::AppError;

const LISTING: &str = r#"<!DOCTYPE html><html><head><title>FLiNG</title></head><body>
<article class="post-standard">
  <div class="post-details-thumb"><img src="https://img.example/er.jpg"></div>
  <div class="post-details-day">12</div><div class="post-details-month">Mar</div><div class="post-details-year">2024</div>
  <h2 class="post-title"><a href="https://flingtrainer.com/trainer/elden-ring-trainer/">  Elden Ring Trainer </a></h2>
  <div class="entry">+47 Options · Game Version: v1.10+ · Last Updated: 2024.03.12</div>
</article>
<article class="post-standard"><p>no title here</p></article>
<article class="post-standard">
  <h2 class="post-title"><a href="/trainer/hades/">Hades</a></h2>
</article>
</body></html>"#;

#[test]
fn listing_pages_yield_one_record_per_titled_article() {
    let list = parse_trainer_list(LISTING).unwrap();
    assert_eq!(list.len(), 2);
    let er = &list[0];
    assert_eq!(er.id, "elden-ring-trainer");
    assert_eq!(er.name, "Elden Ring Trainer");
    assert_eq!(er.version, "+47 Options");
    assert_eq!(er.game_version, "v1.10+");
    assert_eq!(er.thumbnail, "https://img.example/er.jpg");
    assert_eq!(er.description, "+47 Options · Game Version: v1.10+ · Last Updated: 2024.03.12");
    assert_eq!(er.last_update, "12 Mar 2024");
    assert_eq!(er.download_url, "");
    assert_eq!(er.download_count, 0);
    let hades = &list[1];
    assert_eq!(hades.id, "hades");
    assert_eq!(hades.name, "Hades");
    assert_eq!(hades.version, "");
    assert_eq!(hades.game_version, "");
    assert_eq!(hades.last_update, "  ");
}

#[test]
fn an_empty_page_lists_nothing() {
    assert!(parse_trainer_list("<html><body><p>nothing</p></body></html>").unwrap().is_empty());
}

#[test]
fn listing_texts_become_a_record() {
    let t = trainer_from_listing(
        "\n Hades II \t",
        "https://x/trainer/hades-2///",
        "t.png",
        " 12 Options ·Game Version:  Early Access · x",
        "1",
        "Jan",
        "2025",
    );
    assert_eq!(t.id, "hades-2");
    assert_eq!(t.name, "Hades II");
    assert_eq!(t.version, "12 Options");
    assert_eq!(t.game_version, "Early Access");
    assert_eq!(t.last_update, "1 Jan 2025");
    let no_label = trainer_from_listing("a", "b", "", "v · 1.0", "", "", "");
    assert_eq!(no_label.game_version, "");
}

#[test]
fn last_segments_ignore_trailing_slashes() {
    assert_eq!(url_last_segment("https://a/b/c/"), "c");
    assert_eq!(url_last_segment("plain"), "plain");
    assert_eq!(url_last_segment("///"), "");
    assert_eq!(url_last_segment(""), "");
}

const DETAIL: &str = r#"<!DOCTYPE html><html><head>
<link rel="canonical" href="https://flingtrainer.com/trainer/elden-ring-trainer/">
</head><body>
<h1 class="post-title"> Elden Ring Trainer </h1>
<div class="entry">
<p><img class="aligncenter" src="https://img.example/big.jpg"></p>
<div class="fling-before-content">ad</div>
<p>47 Options · Game Version: v1.10+ · Last Updated: 2024.03.12</p>
<p>Num 1 – God Mode</p>

<p>Num 2 – Infinite Stamina</p>
<p>Download</p>
<p>Num 3 – never shown</p>
</div>
<span class="attachment-downloads">12345</span>
<a class="attachment-link" href="https://flingtrainer.com/downloads/er.zip">get</a>
</body></html>"#;

#[test]
fn detail_pages_yield_the_full_record() {
    let t = parse_trainer_detail(DETAIL).unwrap();
    assert_eq!(t.id, "elden-ring");
    assert_eq!(t.name, "Elden Ring Trainer");
    assert_eq!(t.version, "47 Options");
    assert_eq!(t.game_version, "v1.10+");
    assert_eq!(t.last_update, "2024.03.12");
    assert_eq!(t.description, "Num 1 – God Mode\nNum 2 – Infinite Stamina\n");
    assert_eq!(t.thumbnail, "https://img.example/big.jpg");
    assert_eq!(t.download_url, "https://flingtrainer.com/downloads/er.zip");
    assert_eq!(t.download_count, 12345);
}

#[test]
fn detail_pages_need_a_title_and_a_download_link() {
    let no_title = parse_trainer_detail("<html><body><a class='attachment-link' href='x'>x</a></body></html>");
    assert_eq!(no_title, Err(AppError::ParseError("Title not found".to_string())));
    let no_link = parse_trainer_detail("<html><body><h1 class='post-title'>T</h1></body></html>");
    assert_eq!(no_link, Err(AppError::ParseError("Download link not found".to_string())));
}

#[test]
fn without_a_canonical_link_the_id_comes_from_the_title() {
    let html = "<html><body><h1 class='post-title'>Dark Souls III Trainer</h1>\
                <a class='attachment-link' href='u'>u</a>\
                <span class='attachment-downloads'>many</span></body></html>";
    let t = parse_trainer_detail(html).unwrap();
    assert_eq!(t.id, "dark-souls-iii");
    assert_eq!(t.download_count, 0);
    assert_eq!(t.version, "");
    assert_eq!(t.description, "");
}

#[test]
fn detail_texts_become_a_record() {
    let entry = "intro\r\n12 Options · Game Version: 1.2 · Last Updated: today\n  a  \n\nb\nDownload now\nc";
    let t = trainer_from_detail(" My Game Trainer ", "th", entry, "-42", "dl", None);
    assert_eq!(t.id, "my-game");
    assert_eq!(t.version, "12 Options");
    assert_eq!(t.game_version, "1.2");
    assert_eq!(t.last_update, "today");
    assert_eq!(t.description, "a\nb\n");
    assert_eq!(t.download_count, -42);
    let c = trainer_from_detail("x", "", "", "2147483648", "", Some("https://a/foo-trainer-x/"));
    assert_eq!(c.id, "foo-x");
    assert_eq!(c.download_count, 0);
}
