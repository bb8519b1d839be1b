use ozone_api::automod::{
    check_message, check_new_rule, check_rule_action, clamp_mention_limit, clean_keywords,
    stored_exempt_roles, stored_keywords, AutomodRule, AutomodVerdict,
};
use ozone_api::embeds::{clip_chars, sanitize_embeds, EmbedField, MessageEmbed};
use ozone_api::error::AppError;
use ozone_api::mentions::{
    count_mentions, count_occurrences, inbox_selection, inbox_window, mention_targets,
    parse_mention_ids,
};
use ozone_api::messages::{
    around_half, automod_blocked, check_bulk_count, check_delete, check_edit_content,
    check_message_body, check_pin_count, check_reaction_emoji, check_slowmode, check_thread_state,
    check_timeout, page_limit, plan_edit, slowmode_exempt, EditPlan,
};
use ozone_api::numbers::{
    decimal_string, decimal_string_i64, parse_i64, parse_permissions, parse_signed, parse_u16,
    parse_u64,
};
use ozone_api::perms::{EMBED_LINKS, MANAGE_CHANNELS, MANAGE_MESSAGES, SEND_MESSAGES};
use ozone_api::search::{
    check_discoverable, clamp_limit, discovery_plan, fts_query, plan_search, DiscoveryQuery,
    SearchOrder, SearchOutcome, SearchQuery,
};
use ozone_api::validate::{
    detect_audio_type, detect_image_type, image_content_type, sanitize_color_style,
    sanitize_filename, text_field, valid_level, validate_emoji_name, validate_guild_name,
    validate_topic, validate_webhook_name,
};

fn err_of<T>(r: Result<T, AppError>) -> AppError {
    match r {
        Err(e) => e,
        Ok(_) => panic!("an error was expected"),
    }
}

fn embed(title: Option<&str>, url: Option<&str>) -> MessageEmbed {
    MessageEmbed {
        title: title.map(|t| t.to_string()),
        description: None,
        url: url.map(|u| u.to_string()),
        color: Some(0xFF12_3456),
        fields: vec![],
        image_url: None,
        footer: None,
    }
}

fn rule(name: &str, trigger: &str, keywords: &[&str], limit: i64, action: &str, exempt: Vec<i64>) -> AutomodRule {
    AutomodRule {
        id: 1,
        name: name.to_string(),
        trigger_type: trigger.to_string(),
        keywords: keywords.iter().map(|k| k.to_string()).collect(),
        mention_limit: limit,
        action: action.to_string(),
        alert_channel_id: None,
        exempt_roles: exempt,
    }
}

#[test]
fn mention_ids_are_parsed_once() {
    assert_eq!(parse_mention_ids("hi <@12> and <@!34> and <@12> <@x> <@>"), vec![12, 34]);
    assert_eq!(parse_mention_ids("<@99999999999999999999>"), Vec::<i64>::new());
    assert!(parse_mention_ids("no mentions").is_empty());
    assert_eq!(parse_mention_ids("<@1<@2> <@!3> <@2> <@!!4> <@5"), vec![2, 3]);
    assert_eq!(parse_mention_ids("<@5> <@!3> <@5> <@7> <@3>"), vec![5, 3, 7]);
}

#[test]
fn notifying_mentions_are_counted() {
    assert_eq!(count_mentions("<@1> <@&2> @everyone @here"), 4);
    assert_eq!(count_mentions("plain"), 0);
    assert_eq!(count_occurrences(b"aaaa", b"aa"), 2);
    assert_eq!(count_occurrences(b"aaa", b"aa"), 1);
    assert_eq!(count_mentions("<@<@ @everyone@here"), 4);
}

#[test]
fn mentions_notify_only_readers() {
    let t = mention_targets(&vec![1, 2, 3, 4], 2, &vec![true, true, false, true]);
    assert_eq!(t, vec![1, 4]);
    assert_eq!(inbox_window(None), (25, 100));
    assert_eq!(inbox_window(Some(500)), (50, 200));
    assert_eq!(inbox_selection(&vec![false, true, true, false, true], 2), vec![1, 2]);
    assert_eq!(inbox_selection(&vec![true, false], 5), vec![0]);
}

#[test]
fn message_body_rules() {
    let body = check_message_body(5, SEND_MESSAGES, "hello  ", None, vec![], 0, false).ok().unwrap();
    assert_eq!(body.content, "hello");
    assert!(body.cipher.is_none());
    let e = err_of(check_message_body(5, SEND_MESSAGES, "   ", None, vec![], 0, false));
    assert_eq!(e.status, 400);
    assert!(check_message_body(5, SEND_MESSAGES, "", None, vec![], 1, false).is_ok());
    let e = err_of(check_message_body(5, SEND_MESSAGES, "x", Some("blob"), vec![], 0, false));
    assert_eq!(e.message, "le chiffrement de bout en bout n'est disponible qu'en message privé");
    let body = check_message_body(0, SEND_MESSAGES, "ignored", Some(" blob "), vec![], 0, false).ok().unwrap();
    assert_eq!(body.content, "");
    assert_eq!(body.cipher, Some("blob".to_string()));
    let e = err_of(check_message_body(5, SEND_MESSAGES, "x", None, vec![embed(Some("t"), None)], 0, false));
    assert_eq!(e.status, 403);
    let body = check_message_body(5, EMBED_LINKS, "", None, vec![embed(Some("t"), None)], 0, false).ok().unwrap();
    assert_eq!(body.embeds.len(), 1);
    assert!(check_message_body(5, SEND_MESSAGES, &"a".repeat(4001), None, vec![], 0, false).is_err());
}

#[test]
fn embeds_are_cleaned() {
    let cleaned = sanitize_embeds(vec![
        embed(Some("title"), Some("javascript:alert(1)")),
        embed(None, None),
        MessageEmbed {
            title: None,
            description: None,
            url: Some("https://x.y".to_string()),
            color: None,
            fields: vec![
                EmbedField { name: "n".to_string(), value: "".to_string(), inline: false },
                EmbedField { name: "k".to_string(), value: "v".to_string(), inline: true },
            ],
            image_url: None,
            footer: None,
        },
    ]);
    assert_eq!(cleaned.len(), 2);
    assert_eq!(cleaned[0].title, Some("title".to_string()));
    assert_eq!(cleaned[0].url, None);
    assert_eq!(cleaned[0].color, Some(0x12_3456));
    assert_eq!(cleaned[1].url, Some("https://x.y".to_string()));
    assert_eq!(cleaned[1].fields.len(), 1);
    assert_eq!(cleaned[1].fields[0].name, "k");
    assert_eq!(clip_chars("héllo", 2), "hé");
}

#[test]
fn posting_rules() {
    assert_eq!(check_thread_state(Some((11, true, false)), 0).ok(), Some(true));
    assert_eq!(err_of(check_thread_state(Some((11, false, true)), 0)).message, "ce fil est verrouillé");
    assert_eq!(check_thread_state(Some((11, false, true)), MANAGE_CHANNELS).ok(), Some(false));
    assert_eq!(check_thread_state(Some((0, true, true)), 0).ok(), Some(false));
    assert!(check_timeout(5, Some(100), 50).is_err());
    assert!(check_timeout(5, Some(100), 100).is_ok());
    assert!(check_timeout(0, Some(100), 50).is_ok());
    assert!(slowmode_exempt(MANAGE_MESSAGES));
    assert!(!slowmode_exempt(SEND_MESSAGES));
    assert_eq!(err_of(check_slowmode(10, Some(1_000), 10_999)).status, 429);
    assert!(check_slowmode(10, Some(1_000), 11_000).is_ok());
    assert!(check_slowmode(0, Some(1_000), 1_000).is_ok());
    assert_eq!(automod_blocked("spam").message, "message bloqué par l'auto-modération (spam)");
}

#[test]
fn edits_deletes_pins_and_reactions() {
    assert_eq!(check_edit_content("new text \n").ok(), Some("new text".to_string()));
    assert!(check_edit_content("   ").is_err());
    assert_eq!(err_of(plan_edit(false, 0, None, "x")).message, "vous n'êtes pas l'auteur de ce message");
    match plan_edit(true, 0, Some(" c "), "ignored") {
        Ok(EditPlan::Cipher(c)) => assert_eq!(c, "c"),
        _ => panic!("a cipher edit was expected"),
    }
    match plan_edit(true, 3, Some("   "), "text") {
        Ok(EditPlan::Content(c)) => assert_eq!(c, "text"),
        _ => panic!("a text edit was expected"),
    }
    assert!(plan_edit(true, 3, Some("c"), "text").is_err());
    assert!(check_delete(true, 0).is_ok());
    assert!(check_delete(false, MANAGE_MESSAGES).is_ok());
    assert!(check_delete(false, SEND_MESSAGES).is_err());
    assert!(check_bulk_count(0).is_err());
    assert!(check_bulk_count(100).is_ok());
    assert!(check_bulk_count(101).is_err());
    assert!(check_pin_count(249).is_ok());
    assert!(check_pin_count(250).is_err());
    assert!(check_reaction_emoji("👍").is_ok());
    assert_eq!(err_of(check_reaction_emoji("")).message, "emoji invalide");
    assert_eq!(page_limit(None), 50);
    assert_eq!(page_limit(Some(0)), 1);
    assert_eq!(page_limit(Some(1_000)), 100);
    assert_eq!(around_half(1), 1);
    assert_eq!(around_half(51), 25);
}

#[test]
fn automod_blocks_and_alerts() {
    let rules = vec![
        rule("alerting", "keyword", &["spoiler"], 5, "alert", vec![]),
        rule("no-spam", "mention_spam", &[], 2, "block", vec![]),
        rule("never", "keyword", &["hello"], 5, "block", vec![77]),
    ];
    let out = check_message(9, SEND_MESSAGES, &rules, &vec![], "SPOILER: <@1> <@2>");
    assert_eq!(out.triggered, vec![0, 1]);
    match out.verdict {
        AutomodVerdict::Block(name) => assert_eq!(name, "no-spam"),
        AutomodVerdict::Allow => panic!("the message should be blocked"),
    }
    let out = check_message(9, SEND_MESSAGES, &rules, &vec![77], "hello");
    assert!(out.triggered.is_empty());
    assert!(matches!(out.verdict, AutomodVerdict::Allow));
    let out = check_message(9, MANAGE_MESSAGES, &rules, &vec![], "<@1> <@2> spoiler");
    assert!(out.triggered.is_empty());
    let out = check_message(0, SEND_MESSAGES, &rules, &vec![], "<@1> <@2> spoiler");
    assert!(matches!(out.verdict, AutomodVerdict::Allow));
}

#[test]
fn automod_rule_fields() {
    let k = clean_keywords(&vec![" Foo ".to_string(), "   ".to_string(), "x".repeat(61), "Bar".to_string()]);
    assert_eq!(k, vec!["foo".to_string(), "bar".to_string()]);
    let many: Vec<String> = (0..150).map(|i| format!("k{i}")).collect();
    assert_eq!(clean_keywords(&many).len(), 100);
    assert_eq!(clamp_mention_limit(0), 1);
    assert_eq!(clamp_mention_limit(80), 50);
    assert_eq!(check_new_rule(" r ", "keyword", "block").ok(), Some("r".to_string()));
    assert_eq!(err_of(check_new_rule("", "keyword", "block")).message, "nom de règle invalide (1 à 60)");
    assert_eq!(err_of(check_new_rule("r", "regex", "block")).message, "déclencheur invalide (keyword | mention_spam)");
    assert_eq!(err_of(check_new_rule("r", "keyword", "ban")).message, "action invalide (block | alert)");
    assert!(check_rule_action(Some("alert")).is_ok());
    assert!(check_rule_action(Some("ban")).is_err());
    assert!(check_rule_action(None).is_ok());
}

#[test]
fn numbers_read_and_written() {
    assert_eq!(parse_u64("42"), Some(42));
    assert_eq!(parse_u64("+7"), Some(7));
    assert_eq!(parse_u64("18446744073709551616"), None);
    assert_eq!(parse_u64(""), None);
    assert_eq!(parse_u64("-1"), None);
    assert_eq!(parse_u16("8081"), Some(8081));
    assert_eq!(parse_u16("65536"), None);
    assert_eq!(parse_signed("-9223372036854775808"), Some(i64::MIN));
    assert_eq!(parse_signed("9223372036854775808"), None);
    assert_eq!(parse_signed("-+1"), None);
    assert_eq!(parse_i64("18446744073709551615").ok(), Some(-1));
    assert_eq!(err_of(parse_i64("abc")).message, "identifiant invalide");
    assert_eq!(parse_permissions("1024"), 1024);
    assert_eq!(parse_permissions("nope"), 0);
    assert_eq!(decimal_string(0), "0");
    assert_eq!(decimal_string(u64::MAX), "18446744073709551615");
    assert_eq!(decimal_string_i64(i64::MIN), "-9223372036854775808");
}

#[test]
fn search_queries() {
    assert_eq!(fts_query("hello world"), Some("\"hello\" \"world\"".to_string()));
    assert_eq!(fts_query("say \"hi\" OR x"), Some("\"say\" \"\"\"hi\"\"\" \"OR\" \"x\"".to_string()));
    assert_eq!(fts_query("   "), None);
    assert_eq!(fts_query(" \t\n\u{3000}"), None);
    assert_eq!(fts_query("\u{a0}a\u{2003}\u{2003}b*\r\n"), Some("\"a\" \"b*\"".to_string()));
    assert_eq!(clamp_limit(None, 50, 100), 50);
    assert_eq!(clamp_limit(Some(-3), 50, 100), 1);
    let q = SearchQuery {
        q: Some("cats".to_string()),
        channel_id: None,
        author_id: Some("12".to_string()),
        has: None,
        pinned: Some(true),
        before: None,
        after: None,
        sort: Some("relevance".to_string()),
        limit: Some(80),
        offset: Some(-5),
    };
    match plan_search(3, &q) {
        Ok(SearchOutcome::Run(p)) => {
            assert_eq!(p.fts, Some("\"cats\"".to_string()));
            assert_eq!(p.author_id, Some(12));
            assert_eq!(p.order, SearchOrder::Relevance);
            assert_eq!((p.limit, p.offset), (50, 0));
        },
        _ => panic!("a search plan was expected"),
    }
    assert!(matches!(plan_search(0, &q), Ok(SearchOutcome::Empty)));
    let bad = SearchQuery { author_id: Some("x".to_string()), ..q };
    assert_eq!(err_of(plan_search(3, &bad)).message, "identifiant invalide");
    let d = discovery_plan(&DiscoveryQuery { q: Some(" chess ".to_string()), limit: None });
    assert_eq!((d.limit, d.like.as_str()), (50, "%chess%"));
    assert!(check_discoverable(Some(true)).is_ok());
    assert_eq!(err_of(check_discoverable(Some(false))).message, "guilde introuvable");
}

#[test]
fn file_names_and_types() {
    assert_eq!(sanitize_filename("../a\"b\\c.txt"), "..abc.txt");
    assert_eq!(sanitize_filename("  \n "), "fichier");
    assert_eq!(sanitize_filename(&"x".repeat(300)).chars().count(), 200);
    assert_eq!(detect_image_type(&[0x89, 0x50, 0x4E, 0x47, 0, 0]), Some("image/png"));
    assert_eq!(detect_image_type(b"GIF89a"), Some("image/gif"));
    assert_eq!(detect_image_type(&[0xFF, 0xD8, 0xFF, 0xE0]), Some("image/jpeg"));
    assert_eq!(detect_image_type(b"hello"), None);
    assert_eq!(detect_audio_type(b"ID3\x03\x00"), Some("audio/mpeg"));
    assert_eq!(detect_audio_type(b"OggS\x00"), Some("audio/ogg"));
    assert_eq!(detect_audio_type(b"text"), None);
    assert_eq!(image_content_type("image/png"), "image/png");
}

#[test]
fn small_validators() {
    assert_eq!(sanitize_color_style(Some("neon")), "neon");
    assert_eq!(sanitize_color_style(Some("blink")), "solid");
    assert_eq!(sanitize_color_style(None), "solid");
    assert!(valid_level(1, 3));
    assert!(!valid_level(0, 3));
    assert!(validate_emoji_name("party_parrot").is_ok());
    assert!(validate_emoji_name("a").is_err());
    assert!(validate_emoji_name("no-dash").is_err());
    assert_eq!(validate_webhook_name(" Bot ").ok(), Some("Bot".to_string()));
    assert_eq!(err_of(validate_webhook_name("Discord helper")).message, "nom de webhook réservé");
    assert!(validate_topic(&Some("x".repeat(1025))).is_err());
    assert!(validate_topic(&None).is_ok());
    assert!(validate_guild_name("  ").is_err());
    assert_eq!(text_field(&None, Some("keep".to_string()), 10, "bio").ok(), Some(Some("keep".to_string())));
    assert_eq!(text_field(&Some("  ".to_string()), Some("keep".to_string()), 10, "bio").ok(), Some(None));
    assert_eq!(err_of(text_field(&Some("x".repeat(11)), None, 10, "bio")).message, "bio trop long (max 10)");
}

#[test]
fn automod_rules_are_stored_as_json() {
    let kw = vec![" Spam ".to_string(), "".to_string(), "x".repeat(61), "Éclair".to_string()];
    assert_eq!(stored_keywords(&kw), "[\"spam\",\"éclair\"]");
    assert_eq!(stored_exempt_roles(&vec![12, 34]), "[\"12\",\"34\"]");
    assert_eq!(stored_exempt_roles(&vec![-1]), "[\"18446744073709551615\"]");
    assert_eq!(stored_exempt_roles(&Vec::new()), "[]");
}

#[test]
fn stored_keywords_escape_as_json() {
    let kw = vec!["a\"b\\c".to_string(), "x\u{1}y".to_string(), "tab\there".to_string(), "é\u{1f}z".to_string()];
    assert_eq!(stored_keywords(&kw), "[\"a\\\"b\\\\c\",\"x\\u0001y\",\"tab\\there\",\"é\\u001fz\"]");
}
