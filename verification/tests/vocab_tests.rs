use myb::vocab::{KeywordVocab, KeywordVocabExt, VocabError};

#[test]
fn from_specs_builds_vocab() {
    let vocab = KeywordVocab::from_specs(&["LIGHT_UP=L AY1 T AH1 P", "演员=y ǎn y uán"]).unwrap();
    assert_eq!(vocab.len(), 2);
}

#[test]
fn vocab_renders_keywords_file() {
    let vocab = KeywordVocab::from_specs(&["LIGHT_UP=L AY1 T AH1 P", " 演员 = y ǎn y uán "]).unwrap();
    assert_eq!(vocab.to_sherpa_onnx_string(), "L AY1 T AH1 P @LIGHT_UP\ny ǎn y uán @演员\n");
    assert_eq!(vocab.entries()[1].display, "演员");
    assert_eq!(vocab.entries()[1].phonemes, "y ǎn y uán");
    assert!(!vocab.is_empty());
    assert_eq!(KeywordVocab::new().to_sherpa_onnx_string(), "");
}

#[test]
fn vocab_refuses_bad_specs() {
    assert_eq!(KeywordVocab::from_specs(&["A=a", "NOSEP"]).unwrap_err(), VocabError::MissingSeparator);
    assert_eq!(KeywordVocab::from_specs(&[" =a"]).unwrap_err(), VocabError::EmptyDisplay);
    assert_eq!(KeywordVocab::from_specs(&["A= "]).unwrap_err(), VocabError::EmptyPhonemes);
    let mut v = KeywordVocab::new();
    assert!(v.add_str("B").is_err());
    assert_eq!(v.len(), 0);
    assert!(v.add_str("B=b=c").is_ok());
    assert_eq!(v.entries()[0].phonemes, "b=c");
}
