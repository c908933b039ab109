use std::collections::HashMap;

use clip_embed::assembler::ImageAssembler;
use clip_embed::image_prep::ImageLoadError;
use clip_embed::service::{failure_kind, image_input, FailureKind, RequestError};
use clip_embed::tokenize::{tokenize, tokenize_text};

fn small_tokenizer() -> tokenizers::Tokenizer {
    let mut vocab = HashMap::new();
    for (i, w) in ["[UNK]", "a", "photo", "of", "cat", "[CLS]", "[SEP]"].iter().enumerate() {
        vocab.insert(w.to_string(), i as u32);
    }
    let model = tokenizers::models::wordlevel::WordLevel::builder()
        .vocab(vocab)
        .unk_token("[UNK]".to_string())
        .build()
        .unwrap();
    let mut tok = tokenizers::Tokenizer::new(model);
    tok.with_pre_tokenizer(Some(tokenizers::pre_tokenizers::whitespace::Whitespace {}));
    let post = tokenizers::processors::template::TemplateProcessing::builder()
        .try_single("[CLS] $A [SEP]")
        .unwrap()
        .special_tokens(vec![("[CLS]", 5), ("[SEP]", 6)])
        .build()
        .unwrap();
    tok.with_post_processor(Some(post));
    tok
}

#[test]
fn tokenize_adds_boundary_markers() {
    let tok = small_tokenizer();
    let seq = tokenize_text("a photo of a cat".to_string(), &tok).ok().unwrap();
    assert_eq!(seq.rows(), 1);
    assert_eq!(seq.ids, vec![5, 1, 2, 3, 1, 4, 6]);
}

#[test]
fn tokenize_is_deterministic() {
    let tok = small_tokenizer();
    let a = tokenize_text("a dog".to_string(), &tok).ok().unwrap();
    let b = tokenize_text("a dog".to_string(), &tok).ok().unwrap();
    assert_eq!(a.ids, b.ids);
    assert_eq!(a.ids, vec![5, 1, 0, 6]);
}

#[test]
fn empty_upload_is_invalid_argument() {
    let r = image_input(ImageAssembler::new(), 224);
    match r {
        Err(e) => {
            assert!(matches!(e, RequestError::Image(ImageLoadError::Undecodable(_))));
            assert_eq!(failure_kind(&e), FailureKind::InvalidArgument);
        }
        Ok(_) => panic!("an empty upload produced a tensor"),
    }
}

#[test]
fn garbage_upload_is_invalid_argument() {
    let mut up = ImageAssembler::new();
    up.push_chunk(b"GIF8");
    up.push_chunk(b"not really");
    assert!(matches!(
        image_input(up, 224),
        Err(RequestError::Image(ImageLoadError::Undecodable(_)))
    ));
}

#[test]
fn only_image_failures_are_invalid_argument() {
    assert_eq!(failure_kind(&RequestError::Image(ImageLoadError::EmptyImage)), FailureKind::InvalidArgument);
    assert_eq!(failure_kind(&RequestError::Image(ImageLoadError::Undecodable("bad".to_string()))), FailureKind::InvalidArgument);
    assert_eq!(failure_kind(&RequestError::Image(ImageLoadError::TooLarge)), FailureKind::Internal);
    assert_eq!(failure_kind(&RequestError::PermitRefused), FailureKind::Internal);
    assert_eq!(failure_kind(&RequestError::Tokenizer("bad".to_string())), FailureKind::Internal);
    assert_eq!(failure_kind(&RequestError::Inference("zero norm".to_string())), FailureKind::Internal);
}

#[test]
fn encoder_ids_become_one_row() {
    let seq = tokenize(Ok(vec![49406, 320, 1125, 49407])).ok().unwrap();
    assert_eq!(seq.rows(), 1);
    assert_eq!(seq.ids, vec![49406, 320, 1125, 49407]);
}

#[test]
fn encoder_failure_keeps_its_message() {
    match tokenize(Err("invalid utf-8 sequence".to_string())) {
        Err(msg) => assert_eq!(msg, "invalid utf-8 sequence"),
        Ok(_) => panic!("an encoder failure produced tokens"),
    }
}
