use jpk_reader::dataset::properties::error::Property;
use jpk_reader::dataset::properties::{
    extract_u16, extract_u32, extract_u8, extract_unsigned, extract_usize, extract_value, Properties,
};

#[test]
fn properties_line_without_separator_is_invalid() {
    assert!(Properties::new("key value").is_err());
    assert!(Properties::new("a=1\nb\nc=3\n").is_err());
    assert!(Properties::new("a=1\n#b\nc").is_err());
    assert!(Properties::extract("a=1\nb\n", &vec!["a".to_string()]).is_err());
}

#[test]
fn properties_reads_pairs() {
    let properties = Properties::new("a=1\nb=two words\nc=\n").unwrap();
    assert_eq!(properties.len(), 3);
    assert_eq!(properties.get("a").unwrap(), "1");
    assert_eq!(properties.get("b").unwrap(), "two words");
    assert_eq!(properties.get("c").unwrap(), "");
    assert!(properties.get("d").is_none());
    assert!(properties.get("").is_none());
}

#[test]
fn properties_splits_at_the_first_separator() {
    let properties = Properties::new("a=b=c\n=d\ne =f ").unwrap();
    assert_eq!(properties.get("a").unwrap(), "b=c");
    assert_eq!(properties.get("").unwrap(), "d");
    assert_eq!(properties.get("e ").unwrap(), "f ");
    assert!(properties.get("e").is_none());
}

#[test]
fn properties_skips_comments_and_blank_lines() {
    let properties = Properties::new("#first\n\na=1\n   \n# b=2\n\t\r\nc=3").unwrap();
    assert_eq!(properties.len(), 2);
    assert_eq!(properties.get("a").unwrap(), "1");
    assert_eq!(properties.get("c").unwrap(), "3");
    assert!(properties.get("# b").is_none());
    assert!(properties.get("b").is_none());
    assert!(Properties::new(" #a").is_err());
}

#[test]
fn properties_of_empty_text_are_empty() {
    assert_eq!(Properties::new("").unwrap().len(), 0);
    assert_eq!(Properties::new("\n").unwrap().len(), 0);
    assert_eq!(Properties::new("\n\n#\n").unwrap().len(), 0);
}

#[test]
fn properties_keep_the_last_value_of_a_key() {
    let properties = Properties::new("a=1\nb=2\na=3\n").unwrap();
    assert_eq!(properties.len(), 2);
    assert_eq!(properties.get("a").unwrap(), "3");
    assert_eq!(properties.get("b").unwrap(), "2");
}

#[test]
fn properties_keep_line_ends_other_than_line_feed() {
    let properties = Properties::new("a=1\r\nb=2\r\n").unwrap();
    assert_eq!(properties.get("a").unwrap(), "1\r");
    assert_eq!(properties.get("b").unwrap(), "2\r");
}

#[test]
fn properties_are_sorted_by_key() {
    let properties = Properties::new("b=2\nab=1\nB=0\nc=3\nbb=4\n\u{e9}=5\nz=6").unwrap();
    let (keys, values) = properties.into_parts();
    assert_eq!(keys, vec!["B", "ab", "b", "bb", "c", "z", "\u{e9}"]);
    assert_eq!(values, vec!["0", "1", "2", "4", "3", "6", "5"]);
    let mut sorted = keys.clone();
    sorted.sort();
    assert_eq!(keys, sorted);
}

#[test]
fn properties_extract_keeps_the_given_keys() {
    let keys = vec!["b".to_string(), "d".to_string(), "b".to_string()];
    let properties = Properties::extract("a=1\nb=2\nc=3\nb=4\n", &keys).unwrap();
    assert_eq!(properties.len(), 1);
    assert_eq!(properties.get("b").unwrap(), "4");
    assert!(properties.get("a").is_none());
    let properties = Properties::extract("a=1\nb=2\n", &Vec::new()).unwrap();
    assert_eq!(properties.len(), 0);
}

#[test]
fn extract_value_names_the_missing_key() {
    let properties = Properties::new("a=1\n").unwrap();
    assert_eq!(extract_value(&properties, "a").unwrap(), "1");
    match extract_value(&properties, "b") {
        Err(Property::NotFound(key)) => assert_eq!(key, "b"),
        _ => panic!("the property is missing"),
    }
}

#[test]
fn extract_unsigned_reads_numbers_as_std_does() {
    let texts = [
        "0", "7", "007", "+7", "255", "256", "65535", "65536", "4294967295", "4294967296",
        "18446744073709551615", "18446744073709551616", "000000000000000000000000000255", "", "+", "-1", "1 ",
        " 1", "1.0", "1e3", "0x10", "++1", "+-1", "12a", "\u{0661}", "99999999999999999999999",
    ];
    for text in texts {
        let properties = Properties::new(&format!("n={text}\n")).unwrap();
        assert_eq!(extract_u8(&properties, "n").ok(), text.parse::<u8>().ok(), "{text:?}");
        assert_eq!(extract_u16(&properties, "n").ok(), text.parse::<u16>().ok(), "{text:?}");
        assert_eq!(extract_u32(&properties, "n").ok(), text.parse::<u32>().ok(), "{text:?}");
        assert_eq!(extract_usize(&properties, "n").ok(), text.parse::<usize>().ok(), "{text:?}");
        assert_eq!(extract_unsigned(&properties, "n", u64::MAX).ok(), text.parse::<u64>().ok(), "{text:?}");
    }
}

#[test]
fn extract_unsigned_tells_missing_from_invalid() {
    let properties = Properties::new("n=300\nm=x\n").unwrap();
    assert_eq!(extract_u16(&properties, "n").unwrap(), 300);
    match extract_u8(&properties, "n") {
        Err(Property::InvalidValue(key)) => assert_eq!(key, "n"),
        _ => panic!("the number is too large"),
    }
    match extract_u32(&properties, "m") {
        Err(Property::InvalidValue(key)) => assert_eq!(key, "m"),
        _ => panic!("the value is no number"),
    }
    match extract_usize(&properties, "k") {
        Err(Property::NotFound(key)) => assert_eq!(key, "k"),
        _ => panic!("the property is missing"),
    }
    assert_eq!(extract_unsigned(&properties, "n", 300).unwrap(), 300);
    assert!(extract_unsigned(&properties, "n", 299).is_err());
    assert_eq!(Property::InvalidValue("n".to_string()).key(), "n");
}

#[test]
fn properties_from_bytes() {
    let properties = Properties::from_bytes(b"a=1\nk\xc3\xa9y=v\xc3\xa4lue\n".to_vec()).unwrap();
    assert_eq!(properties.get("a").unwrap(), "1");
    assert_eq!(properties.get("k\u{e9}y").unwrap(), "v\u{e4}lue");
    assert!(Properties::from_bytes(b"a=\xff\n".to_vec()).is_err());
    assert!(Properties::from_bytes(b"a=\xc3".to_vec()).is_err());
    assert!(Properties::from_bytes(b"a\n".to_vec()).is_err());
    assert_eq!(Properties::from_bytes(Vec::new()).unwrap().len(), 0);
}
