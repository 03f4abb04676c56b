use regex::Regex;
use yumo_core::text_processor::cn_numerals::{CN_DIGIT_CHARS, CN_DIGIT_CLASS, QUANTIFIERS_SINGLE};
use yumo_core::text_processor::convert_cn_numerals;

#[test]
fn cn_numerals_convert_passthrough_empty() {
    assert_eq!(convert_cn_numerals(""), "");
}

#[test]
fn cn_numerals_convert_passthrough_no_cn() {
    assert_eq!(convert_cn_numerals("hello world"), "hello world");
}

#[test]
fn cn_numerals_quantifier_scan_single_digit() {
    assert_eq!(convert_cn_numerals("三个"), "3个");
    assert_eq!(convert_cn_numerals("我有五块"), "我有5块");
}

#[test]
fn cn_numerals_quantifier_scan_no_anchor_no_change() {
    // 没量词锚点 → 不转
    assert_eq!(convert_cn_numerals("三明治"), "三明治");
    assert_eq!(convert_cn_numerals("一些事"), "一些事");
}

#[test]
fn cn_numerals_invariant_quantifiers_disjoint_from_digits() {
    for q in QUANTIFIERS_SINGLE.iter() {
        assert!(
            !CN_DIGIT_CHARS.contains(*q),
            "QUANTIFIERS_SINGLE 含中文数字字 {:?}, 会导致 quantifier_scan 字节追踪错乱",
            q
        );
    }
}

#[test]
fn cn_numerals_invariant_digit_class_matches_digit_chars() {
    let re = Regex::new(&format!("^{}$", CN_DIGIT_CLASS)).unwrap();
    for c in CN_DIGIT_CHARS.chars() {
        assert!(
            re.is_match(&c.to_string()),
            "CN_DIGIT_CLASS 缺少字符: {:?}",
            c
        );
    }
}

#[test]
fn cn_numerals_quantifier_scan_does_not_panic_on_liang_in_span() {
    // "一两" → parse_cn_numeral 走 positional → 12，'克' 是量词
    assert_eq!(convert_cn_numerals("一两克"), "12克");
    // 单独 '两' 后跟量词
    assert_eq!(convert_cn_numerals("两个"), "2个");
    // "三两条"：span="三两"，positional → 32，'条' 是量词
    assert_eq!(convert_cn_numerals("三两条"), "32条");
}

#[test]
fn cn_numerals_quantifier_scan_multi_digit_truncate_path() {
    assert_eq!(convert_cn_numerals("二十个"), "20个");
    assert_eq!(convert_cn_numerals("一百名"), "100名");
    assert_eq!(convert_cn_numerals("一千零五次"), "1005次");
}

#[test]
fn cn_numerals_quantifier_scan_multiple_in_one_string() {
    assert_eq!(convert_cn_numerals("三个五块"), "3个5块");
    assert_eq!(convert_cn_numerals("我有三块他有五个"), "我有3块他有5个");
}

#[test]
fn cn_numerals_quantifier_scan_multi_char_quantifier() {
    assert_eq!(convert_cn_numerals("跑了三公里"), "跑了3公里");
    assert_eq!(convert_cn_numerals("等了两小时"), "等了2小时");
    assert_eq!(convert_cn_numerals("二十厘米"), "20厘米");
}

#[test]
fn cn_numerals_quantifier_scan_long_match_priority() {
    // "公里" 优先于 "里"（如 "里" 进单字量词）；"小时" 优先于 "时"
    assert_eq!(convert_cn_numerals("十公里"), "10公里");
}

#[test]
fn cn_numerals_quantifier_scan_positional_year() {
    assert_eq!(convert_cn_numerals("二〇二六年"), "2026年");
}

#[test]
fn cn_numerals_pseudo_quantifier_blacklist() {
    // "一" + 后随字 是副词 / 固定搭配，不转
    assert_eq!(convert_cn_numerals("一下子"), "一下子");
    assert_eq!(convert_cn_numerals("一直走"), "一直走");
    assert_eq!(convert_cn_numerals("一定可以"), "一定可以");
    assert_eq!(convert_cn_numerals("一概而论"), "一概而论");
    assert_eq!(convert_cn_numerals("一向如此"), "一向如此");
    assert_eq!(convert_cn_numerals("一旦发生"), "一旦发生");
    assert_eq!(convert_cn_numerals("一举两得"), "一举两得");
    assert_eq!(convert_cn_numerals("一度过严寒"), "一度过严寒");
    // 防御性: '两' 当前不在 QUANTIFIERS_SINGLE，量词扫描不命中 — trivially pass
    // 若将来 '两' 加回量词表，需同步加 ('一','两') 到 PSEUDO_QUANTIFIER_BLACKLIST
    assert_eq!(convert_cn_numerals("一两重"), "一两重");
}

#[test]
fn cn_numerals_pseudo_quantifier_does_not_block_multi_digit() {
    // 多字数字 + 同样的伪量词字仍然转
    assert_eq!(convert_cn_numerals("二十下"), "20下");
    assert_eq!(convert_cn_numerals("十度"), "10度");
}

#[test]
fn cn_numerals_template_ordinal() {
    assert_eq!(convert_cn_numerals("第三"), "第3");
    assert_eq!(convert_cn_numerals("第二十五"), "第25");
    assert_eq!(convert_cn_numerals("第一名"), "第1名"); // 与量词扫描不冲突
}

#[test]
fn cn_numerals_template_negative() {
    assert_eq!(convert_cn_numerals("负三百"), "-300");
    assert_eq!(convert_cn_numerals("温度负二十度"), "温度-20度");
}

#[test]
fn cn_numerals_template_decimal() {
    assert_eq!(convert_cn_numerals("二点五"), "2.5");
    assert_eq!(convert_cn_numerals("零点六"), "0.6");
    assert_eq!(convert_cn_numerals("十二点三四"), "12.34");
}

#[test]
fn cn_numerals_template_decimal_skips_ambiguous_two_chars() {
    // 小数模板不命中 "两点钟"（'钟' 不是 CN_DIGIT_CLASS 字符）
    // 但量词扫描会把 "两点" 转成 "2点"（与 design 4.2 对齐：九点 → 9点）
    assert_eq!(convert_cn_numerals("下午两点钟"), "下午2点钟");
    // "两点九" 合计 2 字，小数模板命中
    assert_eq!(convert_cn_numerals("两点九"), "2.9");
}

#[test]
fn cn_numerals_template_version() {
    assert_eq!(convert_cn_numerals("零点六点零"), "0.6.0");
    assert_eq!(convert_cn_numerals("一点二点三点四"), "1.2.3.4");
    assert_eq!(convert_cn_numerals("二十点一点零"), "20.1.0");
}

#[test]
fn cn_numerals_template_version_priority_over_decimal() {
    // 版本号 ≥3 段必须先匹配，整体转成 X.Y.Z 而不是被小数模板拆成 "X.Y点Z"
    assert_eq!(convert_cn_numerals("发布零点六点零的版本"), "发布0.6.0的版本");
}
