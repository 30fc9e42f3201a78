use webnn_onnx_utils::attributes::require_attr;
use webnn_onnx_utils::data_types::onnx_to_webnn;
use webnn_onnx_utils::error::ConversionError;
use webnn_onnx_utils::identifiers::{is_valid_webnn_identifier, make_unique, sanitize_for_webnn};
use webnn_onnx_utils::shape_inference::{
    broadcast_shapes, Dim, Overrides, ShapeInferenceContext, TensorShape,
};

#[test]
fn broadcast_is_commutative_on_samples() {
    let cases: [(Vec<i64>, Vec<i64>); 4] = [
        (vec![3, 1, 5], vec![3, 4, 1]),
        (vec![5], vec![3, 4, 5]),
        (vec![3, 4], vec![3, 5]),
        (vec![], vec![2, 2]),
    ];
    for (a, b) in cases {
        assert_eq!(broadcast_shapes(&a, &b), broadcast_shapes(&b, &a));
    }
}

#[test]
fn broadcast_identity_on_samples() {
    let a = vec![7, 1, 9];
    assert_eq!(broadcast_shapes(&a, &a), Some(a.clone()));
    assert_eq!(broadcast_shapes(&a, &[]), Some(a.clone()));
    let scalar: Vec<i64> = vec![];
    assert_eq!(broadcast_shapes(&scalar, &scalar), Some(vec![]));
}

#[test]
fn squeeze_unsqueeze_round_trip() {
    let mut ctx = ShapeInferenceContext::new();
    ctx.set_shape(
        "input".to_string(),
        TensorShape::from_static(vec![1, 3, 1, 4]),
    );
    let squeezed = ctx.infer_squeeze("input", &[0, 2]).unwrap();

    let mut ctx2 = ShapeInferenceContext::new();
    ctx2.set_shape("squeezed".to_string(), squeezed);
    let restored = ctx2.infer_unsqueeze("squeezed", &[0, 2]).unwrap();
    assert_eq!(
        restored.to_static(&Default::default()),
        Some(vec![1, 3, 1, 4])
    );
}

#[test]
fn concat_mismatched_extents() {
    let mut ctx = ShapeInferenceContext::new();
    ctx.set_shape("a".to_string(), TensorShape::from_static(vec![2, 3, 4]));
    ctx.set_shape("b".to_string(), TensorShape::from_static(vec![2, 5, 9]));
    assert!(ctx.infer_concat(&["a", "b"], 1).is_none());
}

#[test]
fn concat_negative_axis() {
    let mut ctx = ShapeInferenceContext::new();
    ctx.set_shape("a".to_string(), TensorShape::from_static(vec![2, 3, 4]));
    ctx.set_shape("b".to_string(), TensorShape::from_static(vec![2, 5, 4]));
    let shape = ctx.infer_concat(&["a", "b"], -2).unwrap();
    assert_eq!(shape.to_static(&Default::default()), Some(vec![2, 8, 4]));
    assert!(ctx.infer_concat(&["a", "b"], 3).is_none());
    assert!(ctx.infer_concat(&[], 0).is_none());
}

#[test]
fn reshape_with_two_wildcards() {
    let mut ctx = ShapeInferenceContext::new();
    ctx.set_shape("input".to_string(), TensorShape::from_static(vec![2, 3, 4]));
    assert!(ctx.infer_reshape("input", &[-1, -1, 4]).is_none());
}

#[test]
fn reshape_without_wildcard_is_verbatim() {
    let mut ctx = ShapeInferenceContext::new();
    ctx.set_shape("input".to_string(), TensorShape::from_static(vec![2, 3, 4]));
    let shape = ctx.infer_reshape("input", &[4, 0, 6]).unwrap();
    assert_eq!(shape.to_static(&Default::default()), Some(vec![4, 0, 6]));
}

#[test]
fn squeeze_non_unit_axis_fails() {
    let mut ctx = ShapeInferenceContext::new();
    ctx.set_shape(
        "input".to_string(),
        TensorShape::from_static(vec![1, 3, 1, 4]),
    );
    assert!(ctx.infer_squeeze("input", &[1]).is_none());
}

#[test]
fn unsqueeze_negative_and_invalid_axes() {
    let mut ctx = ShapeInferenceContext::new();
    ctx.set_shape("input".to_string(), TensorShape::from_static(vec![3, 4]));
    let shape = ctx.infer_unsqueeze("input", &[-1]).unwrap();
    assert_eq!(shape.to_static(&Default::default()), Some(vec![3, 4, 1]));
    assert!(ctx.infer_unsqueeze("input", &[7]).is_none());
    assert!(ctx.infer_unsqueeze("input", &[0, -4]).is_none());
}

#[test]
fn unsqueeze_copies_symbolic_dims() {
    let mut ctx = ShapeInferenceContext::new();
    ctx.set_shape(
        "x".to_string(),
        TensorShape::new(vec![Dim::Dynamic("n".to_string()), Dim::Known(4)]),
    );
    let out = ctx.infer_unsqueeze("x", &[0, 2]).unwrap();
    assert_eq!(out.dims.len(), 4);
    assert_eq!(out.dims[0], Dim::Known(1));
    assert_eq!(out.dims[1], Dim::Dynamic("n".to_string()));
    assert_eq!(out.dims[2], Dim::Known(1));
    assert_eq!(out.dims[3], Dim::Known(4));
}

#[test]
fn reduce_negative_axis() {
    let mut ctx = ShapeInferenceContext::new();
    ctx.set_shape("input".to_string(), TensorShape::from_static(vec![2, 3, 4]));
    let shape = ctx.infer_reduce("input", &[-2], false).unwrap();
    assert_eq!(shape.to_static(&Default::default()), Some(vec![2, 4]));
}

#[test]
fn transpose_rejects_bad_permutations() {
    let mut ctx = ShapeInferenceContext::new();
    ctx.set_shape("input".to_string(), TensorShape::from_static(vec![2, 3, 4]));
    assert!(ctx.infer_transpose("input", &[0, 1]).is_none());
    assert!(ctx.infer_transpose("input", &[0, 1, 3]).is_none());
}

#[test]
fn matmul_requires_rank_two() {
    let mut ctx = ShapeInferenceContext::new();
    ctx.set_shape("a".to_string(), TensorShape::from_static(vec![4]));
    ctx.set_shape("b".to_string(), TensorShape::from_static(vec![4, 5]));
    assert!(ctx.infer_matmul("a", "b").is_none());
}

#[test]
fn symbolic_dims_resolve_through_overrides() {
    let shape = TensorShape::new(vec![Dim::Dynamic("batch".to_string()), Dim::Known(3)]);
    assert!(!shape.is_fully_static());
    assert_eq!(shape.rank(), 2);
    assert_eq!(shape.to_static(&Default::default()), None);

    let mut overrides = Overrides::new();
    overrides.insert("batch".to_string(), 8);
    assert_eq!(shape.to_static(&overrides), Some(vec![8, 3]));

    let mut ctx = ShapeInferenceContext::with_overrides(overrides);
    ctx.set_shape("x".to_string(), shape);
    ctx.set_shape("y".to_string(), TensorShape::from_static(vec![8, 1]));
    let out = ctx.infer_binary_op("x", "y").unwrap();
    assert_eq!(out.to_static(&Default::default()), Some(vec![8, 3]));
}

#[test]
fn unresolved_symbolic_dim_blocks_binary_op() {
    let mut ctx = ShapeInferenceContext::new();
    ctx.set_shape(
        "x".to_string(),
        TensorShape::new(vec![Dim::Dynamic("n".to_string())]),
    );
    ctx.set_shape("y".to_string(), TensorShape::from_static(vec![1]));
    assert!(ctx.infer_binary_op("x", "y").is_none());
    assert!(ctx.infer_unary_op("missing").is_none());
}

#[test]
fn unary_op_copies_symbolic_dims() {
    let mut ctx = ShapeInferenceContext::new();
    ctx.set_shape(
        "x".to_string(),
        TensorShape::new(vec![Dim::Dynamic("n".to_string()), Dim::Known(2)]),
    );
    let out = ctx.infer_unary_op("x").unwrap();
    assert_eq!(out.dims.len(), 2);
    assert_eq!(out.dims[0], Dim::Dynamic("n".to_string()));
    assert_eq!(out.dims[1], Dim::Known(2));
}

#[test]
fn dim_equality_is_structural() {
    assert_eq!(Dim::Known(3), Dim::Known(3));
    assert_ne!(Dim::Known(3), Dim::Known(4));
    assert_eq!(Dim::Dynamic("n".to_string()), Dim::Dynamic("n".to_string()));
    assert_ne!(Dim::Known(3), Dim::Dynamic("n".to_string()));
}

#[test]
fn unsupported_dtype_codes_error() {
    let err = onnx_to_webnn(999).unwrap_err();
    assert_eq!(err.message(), "unsupported data type code: 999");
    let err = onnx_to_webnn(-5).unwrap_err();
    assert_eq!(err.message(), "unsupported data type code: -5");
    // code 11 names the double-precision type, which the runtime API lacks
    let err = onnx_to_webnn(11).unwrap_err();
    assert_eq!(err.message(), "unsupported data type code: 11");
}

#[test]
fn require_attr_reports_missing_name() {
    assert_eq!(require_attr("axis", Some(7)).unwrap(), 7);
    let err = require_attr::<i64>("kernel_shape", None).unwrap_err();
    match err {
        ConversionError::InvalidAttribute(m) => {
            assert_eq!(m, "missing attribute: kernel_shape");
        }
        _ => panic!("wrong error variant"),
    }
}

#[test]
fn error_messages_carry_their_text() {
    let e = ConversionError::InvalidTensorData("short".to_string());
    assert_eq!(e.message(), "invalid tensor data: short");
    let e = ConversionError::Internal("oops".to_string());
    assert_eq!(e.message(), "internal error: oops");
}

#[test]
fn make_unique_appends_counter() {
    let mut counter = 0usize;
    assert_eq!(make_unique("node", &mut counter), "node_0");
    assert_eq!(make_unique("node", &mut counter), "node_1");
    assert_eq!(counter, 2);
    let mut counter = 41usize;
    assert_eq!(make_unique("x", &mut counter), "x_41");
}

#[test]
fn sanitize_edge_cases() {
    assert_eq!(sanitize_for_webnn(""), "");
    assert_eq!(sanitize_for_webnn(":::"), "___");
    assert_eq!(sanitize_for_webnn("plain_name"), "plain_name");
}

#[test]
fn identifier_edge_cases() {
    assert!(is_valid_webnn_identifier("_"));
    assert!(!is_valid_webnn_identifier(""));
    assert!(is_valid_webnn_identifier("a1_b2"));
    assert!(!is_valid_webnn_identifier("a b"));
}
