use zola::content::utils::get_reading_analytics;

#[test]
fn reading_analytics_empty_text() {
    let (word_count, reading_time) = get_reading_analytics("  ", "en");
    assert_eq!(word_count, 0);
    assert_eq!(reading_time, 0);
}

#[test]
fn reading_analytics_short_text() {
    let (word_count, reading_time) = get_reading_analytics("Hello World", "en");
    assert_eq!(word_count, 2);
    assert_eq!(reading_time, 1);
}

#[test]
fn reading_analytics_long_text() {
    let mut content = String::new();
    for _ in 0..1000 {
        content.push_str(" Hello world");
    }
    let (word_count, reading_time) = get_reading_analytics(&content, "en");
    assert_eq!(word_count, 2000);
    assert_eq!(reading_time, 9);
}

#[test]
fn reading_analytics_no_code() {
    let (word_count, reading_time) =
        get_reading_analytics("hello world ``` code goes here ``` goodbye world", "en");
    assert_eq!(word_count, 4);
    assert_eq!(reading_time, 1);

    let (word_count, reading_time) = get_reading_analytics(
        "hello world ``` code goes here ``` goodbye world ``` dangling fence",
        "en",
    );
    assert_eq!(word_count, 4);
    assert_eq!(reading_time, 1);
}

#[test]
fn reading_analytics_chinese_counts_chars() {
    let (count, time) = get_reading_analytics("你好世界，这是中文测试。", "zh");
    assert_eq!(count, 10);
    assert_eq!(time, 1);
}

#[test]
fn reading_analytics_japanese_counts_chars() {
    let (count, time) = get_reading_analytics("こんにちは、世界。", "ja");
    assert_eq!(count, 7);
    assert_eq!(time, 1);
}

#[test]
fn reading_analytics_zh_variant_subtag() {
    let (count, _) = get_reading_analytics("你好世界", "zh-Hant-TW");
    assert_eq!(count, 4);
}

#[test]
fn reading_analytics_unknown_lang_falls_back() {
    let mut content = String::new();
    for _ in 0..1000 {
        content.push_str(" Hello world");
    }
    let (word_count, reading_time) = get_reading_analytics(&content, "xx");
    assert_eq!(word_count, 2000);
    assert_eq!(reading_time, 10);
}

#[test]
fn reading_analytics_korean_rate() {
    let mut content = String::new();
    for _ in 0..203 {
        content.push_str("안녕 ");
    }
    let (word_count, reading_time) = get_reading_analytics(&content, "ko-KR");
    assert_eq!(word_count, 203);
    // 203 words at 202 words per minute, rounded up
    assert_eq!(reading_time, 2);
}

#[test]
fn reading_analytics_fences_back_to_back() {
    // text, fenced code, text, fenced code: only the unfenced parts count
    let (word_count, _) = get_reading_analytics("a``````b```c```d", "en");
    assert_eq!(word_count, 3);
    // "````" holds one fence followed by a backtick that starts the fenced text
    let (word_count, _) = get_reading_analytics("one ````two", "en");
    assert_eq!(word_count, 1);
}

#[test]
fn reading_analytics_cjk_skips_punctuation_and_code() {
    let (count, time) = get_reading_analytics("日本```コード```語。", "ja");
    assert_eq!(count, 3);
    assert_eq!(time, 1);
}
