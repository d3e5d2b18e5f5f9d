use meme_game::guard::carries_script_tag;

#[test]
fn script_tags_are_found_in_any_case() {
    assert!(carries_script_tag("hello <script>alert(1)</script>"));
    assert!(carries_script_tag("x=<SCRIPT src=evil.js>"));
    assert!(carries_script_tag("<   ScRiPt type=\"text/javascript\">"));
    assert!(carries_script_tag("a=1&b=<script\n>"));
}

#[test]
fn other_text_passes() {
    assert!(!carries_script_tag(""));
    assert!(!carries_script_tag("page=2&sort=name"));
    assert!(!carries_script_tag("<scripture>"));
    assert!(!carries_script_tag("<script"));
    assert!(!carries_script_tag("script>"));
    assert!(!carries_script_tag("{\"name\":\"my pack\",\"prompts\":[\"When the tests pass\"]}"));
}
