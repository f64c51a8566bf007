use toponn::{
    Embeddings, Field, LayerEmbeddings, Numberer, SentVec, SentVectorizer, Token, ToponnError,
};

fn bits(values: &[f32]) -> Vec<u32> {
    values.iter().map(|v| v.to_bits()).collect()
}

fn token(form: &str, pos: Option<&str>, tf: Option<&str>) -> Token {
    let features = tf.map(|v| vec![(String::from("tf"), Some(String::from(v)))]);
    Token::new(String::from(form), pos.map(String::from), features)
}

fn token_layer() -> Embeddings {
    Embeddings::new(
        3,
        vec![String::from("the"), String::from("cat")],
        vec![bits(&[1.0, 2.0, 3.0]), bits(&[4.0, 5.0, 6.0])],
        bits(&[0.25, 0.25, 0.25]),
    )
}

fn tag_layer() -> Embeddings {
    Embeddings::new(
        2,
        vec![String::from("DET"), String::from("NOUN")],
        vec![bits(&[7.0, 8.0]), bits(&[9.0, 10.0])],
        bits(&[0.5, 0.5]),
    )
}

fn vectorizer() -> SentVectorizer {
    SentVectorizer::new(LayerEmbeddings::new(token_layer(), tag_layer()), Numberer::new())
}

#[test]
fn sentvec_construction_is_empty() {
    let sv = SentVec::new();
    let (tokens, tags, tfs) = sv.into_parts();
    assert!(tokens.is_empty());
    assert!(tags.is_empty());
    assert!(tfs.is_empty());
    let sv = SentVec::with_capacity(8);
    let (tokens, tags, tfs) = sv.into_parts();
    assert!(tokens.is_empty());
    assert!(tags.is_empty());
    assert!(tfs.is_empty());
}

#[test]
fn embedding_of_known_key_is_the_stored_vector() {
    let layer = token_layer();
    assert_eq!(layer.dims(), 3);
    assert_eq!(layer.embedding(&String::from("the")), bits(&[1.0, 2.0, 3.0]));
    assert_eq!(layer.embedding(&String::from("cat")), bits(&[4.0, 5.0, 6.0]));
}

#[test]
fn embedding_of_unknown_key_is_the_fallback() {
    let layer = token_layer();
    assert_eq!(layer.embedding(&String::from("dog")), bits(&[0.25, 0.25, 0.25]));
}

#[test]
fn fallback_equals_normalized_sum_of_unit_vectors() {
    // Two unit-length vectors with a nonzero sum: the fallback the store is
    // built with is their L2-normalized sum, and an unknown key answers it.
    let e1: [f32; 2] = [1.0, 0.0];
    let e2: [f32; 2] = [0.0, 1.0];
    let sum = [e1[0] + e2[0], e1[1] + e2[1]];
    let norm = (sum[0] * sum[0] + sum[1] * sum[1]).sqrt();
    let fallback = [sum[0] / norm, sum[1] / norm];
    let store = Embeddings::new(
        2,
        vec![String::from("a"), String::from("b")],
        vec![bits(&e1), bits(&e2)],
        bits(&fallback),
    );
    let answered = store.embedding(&String::from("unknown"));
    assert_eq!(answered, bits(&fallback));
    let x = f32::from_bits(answered[0]);
    let y = f32::from_bits(answered[1]);
    assert!((x * x + y * y - 1.0).abs() < 1e-6);
}

#[test]
fn fallback_of_zero_sum_store_is_the_zero_vector() {
    // Vectors that sum to exactly zero: normalization is skipped and the
    // fallback is the zero vector.
    let store = Embeddings::new(
        2,
        vec![String::from("a"), String::from("b")],
        vec![bits(&[1.0, 0.0]), bits(&[-1.0, 0.0])],
        bits(&[0.0, 0.0]),
    );
    let answered = store.embedding(&String::from("unknown"));
    assert_eq!(f32::from_bits(answered[0]), 0.0);
    assert_eq!(f32::from_bits(answered[1]), 0.0);
}

#[test]
fn realize_produces_three_parallel_sequences() {
    let mut v = vectorizer();
    let sentence = vec![
        token("the", Some("DET"), Some("VF")),
        token("cat", Some("NOUN"), Some("MF")),
    ];
    let sv = v.realize(&sentence).unwrap();
    let (tokens, tags, tfs) = sv.into_parts();
    assert_eq!(tokens.len(), 2 * 3);
    assert_eq!(tags.len(), 2 * 2);
    assert_eq!(tfs.len(), 2);
    let mut expected_tokens = bits(&[1.0, 2.0, 3.0]);
    expected_tokens.extend(bits(&[4.0, 5.0, 6.0]));
    assert_eq!(tokens, expected_tokens);
    let mut expected_tags = bits(&[7.0, 8.0]);
    expected_tags.extend(bits(&[9.0, 10.0]));
    assert_eq!(tags, expected_tags);
    assert_eq!(tfs, vec![0, 1]);
}

#[test]
fn realize_falls_back_for_unknown_forms_and_tags() {
    let mut v = vectorizer();
    let sentence = vec![token("dog", Some("VERB"), Some("VF"))];
    let sv = v.realize(&sentence).unwrap();
    assert_eq!(sv.tokens, bits(&[0.25, 0.25, 0.25]));
    assert_eq!(sv.tags, bits(&[0.5, 0.5]));
    assert_eq!(sv.tfs, vec![0]);
}

#[test]
fn realize_numbers_repeated_labels_identically() {
    let mut v = vectorizer();
    let sentence = vec![
        token("the", Some("DET"), Some("VF")),
        token("cat", Some("NOUN"), Some("MF")),
        token("the", Some("DET"), Some("VF")),
    ];
    let sv = v.realize(&sentence).unwrap();
    assert_eq!(sv.tfs, vec![0, 1, 0]);
    assert_eq!(v.numberer().len(), 2);
    assert_eq!(v.numberer().lookup(&String::from("VF")), Some(0));
    assert_eq!(v.numberer().lookup(&String::from("MF")), Some(1));
    // Every returned identifier resolves back to the token's label.
    assert_eq!(v.numberer().value(0), Some(&String::from("VF")));
    assert_eq!(v.numberer().value(1), Some(&String::from("MF")));
}

#[test]
fn missing_tf_feature_fails_naming_the_token() {
    let mut v = vectorizer();
    let bad = token("the", Some("DET"), None);
    let sentence = vec![token("cat", Some("NOUN"), Some("VF")), bad.clone()];
    let err = v.realize(&sentence).unwrap_err();
    assert_eq!(err, ToponnError::MissingField { token: bad, field: Field::TopologicalField });
}

#[test]
fn valueless_tf_feature_fails_like_a_missing_one() {
    let mut v = vectorizer();
    let bad = Token::new(
        String::from("the"),
        Some(String::from("DET")),
        Some(vec![(String::from("tf"), None)]),
    );
    let err = v.realize(&vec![bad.clone()]).unwrap_err();
    assert_eq!(err, ToponnError::MissingField { token: bad, field: Field::TopologicalField });
}

#[test]
fn missing_pos_is_reported_before_missing_features() {
    let mut v = vectorizer();
    let bad = token("the", None, None);
    let err = v.realize(&vec![bad.clone()]).unwrap_err();
    assert_eq!(err, ToponnError::MissingField { token: bad, field: Field::Pos });
}

#[test]
fn realize_stops_at_the_first_bad_token() {
    let mut v = vectorizer();
    let first_bad = token("the", None, Some("VF"));
    let second_bad = token("cat", Some("NOUN"), None);
    let err = v.realize(&vec![first_bad.clone(), second_bad]).unwrap_err();
    assert_eq!(err, ToponnError::MissingField { token: first_bad, field: Field::Pos });
}

#[test]
fn feature_lookup_takes_the_first_match() {
    let t = Token::new(
        String::from("the"),
        Some(String::from("DET")),
        Some(vec![
            (String::from("tf"), Some(String::from("VF"))),
            (String::from("tf"), Some(String::from("MF"))),
            (String::from("morph"), None),
        ]),
    );
    assert_eq!(t.feature(&String::from("tf")), Some(&Some(String::from("VF"))));
    assert_eq!(t.feature(&String::from("morph")), Some(&None));
    assert_eq!(t.feature(&String::from("lemma")), None);
}

#[test]
fn layer_accessors_return_the_right_store() {
    let layers = LayerEmbeddings::new(token_layer(), tag_layer());
    assert_eq!(layers.token_embeddings().dims(), 3);
    assert_eq!(layers.tag_embeddings().dims(), 2);
    let v = SentVectorizer::new(layers, Numberer::new());
    assert_eq!(v.layer_embeddings().token_embeddings().dims(), 3);
    assert_eq!(v.numberer().len(), 0);
}
