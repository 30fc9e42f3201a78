//! Translation between the two naming schemes for the same operator
//! set: the runtime API's camel-case names and the interchange
//! format's capitalised names.  Lookups are case-insensitive: both
//! tables are keyed by the ASCII-lowercased name, and a later mapping
//! for the same key overrides an earlier one.

use vstd::prelude::*;
use vstd::string::StrSliceExecFns;
use vstd::string::StringExecFns;

use crate::text::str_eq;

verus! {

/// An ASCII uppercase letter mapped to its lowercase form; any other
/// character is unchanged.
pub open spec fn lower_char(c: char) -> char {
    if c as u32 == 65 {
        'a'
    } else if c as u32 == 66 {
        'b'
    } else if c as u32 == 67 {
        'c'
    } else if c as u32 == 68 {
        'd'
    } else if c as u32 == 69 {
        'e'
    } else if c as u32 == 70 {
        'f'
    } else if c as u32 == 71 {
        'g'
    } else if c as u32 == 72 {
        'h'
    } else if c as u32 == 73 {
        'i'
    } else if c as u32 == 74 {
        'j'
    } else if c as u32 == 75 {
        'k'
    } else if c as u32 == 76 {
        'l'
    } else if c as u32 == 77 {
        'm'
    } else if c as u32 == 78 {
        'n'
    } else if c as u32 == 79 {
        'o'
    } else if c as u32 == 80 {
        'p'
    } else if c as u32 == 81 {
        'q'
    } else if c as u32 == 82 {
        'r'
    } else if c as u32 == 83 {
        's'
    } else if c as u32 == 84 {
        't'
    } else if c as u32 == 85 {
        'u'
    } else if c as u32 == 86 {
        'v'
    } else if c as u32 == 87 {
        'w'
    } else if c as u32 == 88 {
        'x'
    } else if c as u32 == 89 {
        'y'
    } else if c as u32 == 90 {
        'z'
    } else {
        c
    }
}

/// The ASCII-lowercased form of a character sequence.
pub open spec fn lower_chars(s: Seq<char>) -> Seq<char> {
    s.map_values(|c: char| lower_char(c))
}

fn lower_char_str(c: char) -> (r: &'static str)
    requires
        65 <= c as u32 <= 90,
    ensures
        r@ =~= seq![lower_char(c)],
{
    proof {
        reveal_strlit("a");
        reveal_strlit("b");
        reveal_strlit("c");
        reveal_strlit("d");
        reveal_strlit("e");
        reveal_strlit("f");
        reveal_strlit("g");
        reveal_strlit("h");
        reveal_strlit("i");
        reveal_strlit("j");
        reveal_strlit("k");
        reveal_strlit("l");
        reveal_strlit("m");
        reveal_strlit("n");
        reveal_strlit("o");
        reveal_strlit("p");
        reveal_strlit("q");
        reveal_strlit("r");
        reveal_strlit("s");
        reveal_strlit("t");
        reveal_strlit("u");
        reveal_strlit("v");
        reveal_strlit("w");
        reveal_strlit("x");
        reveal_strlit("y");
        reveal_strlit("z");
    }
    let u = c as u32;
    if u == 65 {
        "a"
    } else if u == 66 {
        "b"
    } else if u == 67 {
        "c"
    } else if u == 68 {
        "d"
    } else if u == 69 {
        "e"
    } else if u == 70 {
        "f"
    } else if u == 71 {
        "g"
    } else if u == 72 {
        "h"
    } else if u == 73 {
        "i"
    } else if u == 74 {
        "j"
    } else if u == 75 {
        "k"
    } else if u == 76 {
        "l"
    } else if u == 77 {
        "m"
    } else if u == 78 {
        "n"
    } else if u == 79 {
        "o"
    } else if u == 80 {
        "p"
    } else if u == 81 {
        "q"
    } else if u == 82 {
        "r"
    } else if u == 83 {
        "s"
    } else if u == 84 {
        "t"
    } else if u == 85 {
        "u"
    } else if u == 86 {
        "v"
    } else if u == 87 {
        "w"
    } else if u == 88 {
        "x"
    } else if u == 89 {
        "y"
    } else if u == 90 {
        "z"
    } else {
        proof {
            assert(false);
        }
        ""
    }
}

/// ASCII-lowercases a string: uppercase ASCII letters are lowered,
/// every other character is kept.
fn lower_str(s: &str) -> (r: String)
    ensures
        r@ == lower_chars(s@),
{
    let n = s.unicode_len();
    let mut out = String::new();
    let mut i: usize = 0;
    while i < n
        invariant
            i <= n,
            n == s@.len(),
            out@.len() == i,
            forall|j: int| 0 <= j < i ==> out@[j] == lower_char(s@[j]),
        decreases n - i,
    {
        let c = s.get_char(i);
        let u = c as u32;
        if 65 <= u && u <= 90 {
            out.append(lower_char_str(c));
        } else {
            let piece = s.substring_char(i, i + 1);
            proof {
                assert(piece@ =~= seq![s@[i as int]]);
                assert(lower_char(s@[i as int]) == s@[i as int]);
            }
            out.append(piece);
        }
        i = i + 1;
    }
    proof {
        assert(out@ =~= lower_chars(s@));
    }
    out
}

/// The canonical operator-name pairs: runtime name first, interchange
/// name second, in the order the tables are built.
pub open spec fn op_table() -> Seq<(Seq<char>, Seq<char>)> {
    seq![
        ("matmul"@, "MatMul"@),
        ("gemm"@, "Gemm"@),
        ("conv2d"@, "Conv"@),
        ("convTranspose2d"@, "ConvTranspose"@),
        ("averagePool2d"@, "AveragePool"@),
        ("maxPool2d"@, "MaxPool"@),
        ("globalAveragePool"@, "GlobalAveragePool"@),
        ("globalMaxPool"@, "GlobalMaxPool"@),
        ("batchNormalization"@, "BatchNormalization"@),
        ("layerNormalization"@, "LayerNormalization"@),
        ("instanceNormalization"@, "InstanceNormalization"@),
        ("relu"@, "Relu"@),
        ("sigmoid"@, "Sigmoid"@),
        ("tanh"@, "Tanh"@),
        ("softmax"@, "Softmax"@),
        ("prelu"@, "PRelu"@),
        ("leakyRelu"@, "LeakyRelu"@),
        ("elu"@, "Elu"@),
        ("clamp"@, "Clip"@),
        ("gelu"@, "Gelu"@),
        ("hardSigmoid"@, "HardSigmoid"@),
        ("hardSwish"@, "HardSwish"@),
        ("softplus"@, "Softplus"@),
        ("softsign"@, "Softsign"@),
        ("add"@, "Add"@),
        ("sub"@, "Sub"@),
        ("mul"@, "Mul"@),
        ("div"@, "Div"@),
        ("pow"@, "Pow"@),
        ("max"@, "Max"@),
        ("min"@, "Min"@),
        ("abs"@, "Abs"@),
        ("ceil"@, "Ceil"@),
        ("cos"@, "Cos"@),
        ("exp"@, "Exp"@),
        ("floor"@, "Floor"@),
        ("log"@, "Log"@),
        ("neg"@, "Neg"@),
        ("reciprocal"@, "Reciprocal"@),
        ("sin"@, "Sin"@),
        ("sqrt"@, "Sqrt"@),
        ("tan"@, "Tan"@),
        ("erf"@, "Erf"@),
        ("identity"@, "Identity"@),
        ("sign"@, "Sign"@),
        ("reduceSum"@, "ReduceSum"@),
        ("reduceMean"@, "ReduceMean"@),
        ("reduceMax"@, "ReduceMax"@),
        ("reduceMin"@, "ReduceMin"@),
        ("reduceProduct"@, "ReduceProd"@),
        ("reduceL1"@, "ReduceL1"@),
        ("reduceL2"@, "ReduceL2"@),
        ("reduceLogSum"@, "ReduceLogSum"@),
        ("reduceLogSumExp"@, "ReduceLogSumExp"@),
        ("reduceSumSquare"@, "ReduceSumSquare"@),
        ("equal"@, "Equal"@),
        ("greater"@, "Greater"@),
        ("greaterOrEqual"@, "GreaterOrEqual"@),
        ("lesser"@, "Less"@),
        ("lesserOrEqual"@, "LessOrEqual"@),
        ("logicalAnd"@, "And"@),
        ("logicalOr"@, "Or"@),
        ("logicalNot"@, "Not"@),
        ("logicalXor"@, "Xor"@),
        ("concat"@, "Concat"@),
        ("expand"@, "Expand"@),
        ("gather"@, "Gather"@),
        ("pad"@, "Pad"@),
        ("reshape"@, "Reshape"@),
        ("slice"@, "Slice"@),
        ("split"@, "Split"@),
        ("squeeze"@, "Squeeze"@),
        ("tile"@, "Tile"@),
        ("transpose"@, "Transpose"@),
        ("unsqueeze"@, "Unsqueeze"@),
        ("where"@, "Where"@),
        ("triangular"@, "Trilu"@),
        ("resample2d"@, "Resize"@),
        ("quantizeLinear"@, "QuantizeLinear"@),
        ("dequantizeLinear"@, "DequantizeLinear"@),
        ("gru"@, "GRU"@),
        ("gruCell"@, "GRU"@),
        ("lstm"@, "LSTM"@),
        ("lstmCell"@, "LSTM"@),
        ("argMax"@, "ArgMax"@),
        ("argMin"@, "ArgMin"@),
        ("cast"@, "Cast"@),
        ("flatten"@, "Flatten"@),
    ]
}

/// The views of a table's entries.
pub open spec fn entry_views(s: Seq<(String, String)>) -> Seq<(Seq<char>, Seq<char>)> {
    s.map_values(|p: (String, String)| (p.0@, p.1@))
}

/// The mapping held by a list of key/value pairs; a later pair with
/// the same key overrides an earlier one.
pub open spec fn pairs_map(s: Seq<(Seq<char>, Seq<char>)>) -> Map<Seq<char>, Seq<char>>
    decreases s.len(),
{
    if s.len() == 0 {
        Map::empty()
    } else {
        pairs_map(s.drop_last()).insert(s.last().0, s.last().1)
    }
}

proof fn lemma_pairs_map_absent(s: Seq<(Seq<char>, Seq<char>)>, k: Seq<char>)
    requires
        forall|j: int| 0 <= j < s.len() ==> (#[trigger] s[j]).0 != k,
    ensures
        !pairs_map(s).contains_key(k),
    decreases s.len(),
{
    if s.len() > 0 {
        lemma_pairs_map_absent(s.drop_last(), k);
    }
}

proof fn lemma_pairs_map_found(s: Seq<(Seq<char>, Seq<char>)>, k: Seq<char>, j: int)
    requires
        0 <= j < s.len(),
        s[j].0 == k,
        forall|l: int| j < l < s.len() ==> (#[trigger] s[l]).0 != k,
    ensures
        pairs_map(s).contains_key(k),
        pairs_map(s)[k] == s[j].1,
    decreases s.len(),
{
    if j < s.len() - 1 {
        lemma_pairs_map_found(s.drop_last(), k, j);
    }
}

/// The two lookup tables translating operator names, keyed by the
/// ASCII-lowercased name.
pub struct OpNameMapper {
    webnn_to_onnx: Vec<(String, String)>,
    onnx_to_webnn: Vec<(String, String)>,
}

fn add_mapping(
    webnn_to_onnx: &mut Vec<(String, String)>,
    onnx_to_webnn: &mut Vec<(String, String)>,
    webnn: &str,
    onnx: &str,
)
    ensures
        entry_views(final(webnn_to_onnx)@) == entry_views(old(webnn_to_onnx)@).push(
            (lower_chars(webnn@), onnx@),
        ),
        entry_views(final(onnx_to_webnn)@) == entry_views(old(onnx_to_webnn)@).push(
            (lower_chars(onnx@), webnn@),
        ),
{
    webnn_to_onnx.push((lower_str(webnn), onnx.to_owned()));
    onnx_to_webnn.push((lower_str(onnx), webnn.to_owned()));
    proof {
        assert(entry_views(webnn_to_onnx@) =~= entry_views(old(webnn_to_onnx)@).push(
            (lower_chars(webnn@), onnx@),
        ));
        assert(entry_views(onnx_to_webnn@) =~= entry_views(old(onnx_to_webnn)@).push(
            (lower_chars(onnx@), webnn@),
        ));
    }
}

impl OpNameMapper {
    /// The entries of the runtime-to-interchange table, as views.
    pub closed spec fn w2o_pairs(&self) -> Seq<(Seq<char>, Seq<char>)> {
        entry_views(self.webnn_to_onnx@)
    }

    /// The entries of the interchange-to-runtime table, as views.
    pub closed spec fn o2w_pairs(&self) -> Seq<(Seq<char>, Seq<char>)> {
        entry_views(self.onnx_to_webnn@)
    }

    /// The runtime-to-interchange mapping, keyed by lowercased name.
    pub open spec fn w2o_map(&self) -> Map<Seq<char>, Seq<char>> {
        pairs_map(self.w2o_pairs())
    }

    /// The interchange-to-runtime mapping, keyed by lowercased name.
    pub open spec fn o2w_map(&self) -> Map<Seq<char>, Seq<char>> {
        pairs_map(self.o2w_pairs())
    }

    /// Builds the two tables from the canonical operator-name pairs.
    #[verifier::rlimit(100)]
    pub fn new() -> (r: Self)
        ensures
            r.w2o_pairs() == op_table().map_values(
                |p: (Seq<char>, Seq<char>)| (lower_chars(p.0), p.1),
            ),
            r.o2w_pairs() == op_table().map_values(
                |p: (Seq<char>, Seq<char>)| (lower_chars(p.1), p.0),
            ),
    {
        let mut webnn_to_onnx: Vec<(String, String)> = Vec::new();
        let mut onnx_to_webnn: Vec<(String, String)> = Vec::new();

        add_mapping(&mut webnn_to_onnx, &mut onnx_to_webnn, "matmul", "MatMul");
        add_mapping(&mut webnn_to_onnx, &mut onnx_to_webnn, "gemm", "Gemm");
        add_mapping(&mut webnn_to_onnx, &mut onnx_to_webnn, "conv2d", "Conv");
        add_mapping(&mut webnn_to_onnx, &mut onnx_to_webnn, "convTranspose2d", "ConvTranspose");
        add_mapping(&mut webnn_to_onnx, &mut onnx_to_webnn, "averagePool2d", "AveragePool");
        add_mapping(&mut webnn_to_onnx, &mut onnx_to_webnn, "maxPool2d", "MaxPool");
        add_mapping(&mut webnn_to_onnx, &mut onnx_to_webnn, "globalAveragePool", "GlobalAveragePool");
        add_mapping(&mut webnn_to_onnx, &mut onnx_to_webnn, "globalMaxPool", "GlobalMaxPool");
        add_mapping(&mut webnn_to_onnx, &mut onnx_to_webnn, "batchNormalization", "BatchNormalization");
        add_mapping(&mut webnn_to_onnx, &mut onnx_to_webnn, "layerNormalization", "LayerNormalization");
        add_mapping(&mut webnn_to_onnx, &mut onnx_to_webnn, "instanceNormalization", "InstanceNormalization");
        add_mapping(&mut webnn_to_onnx, &mut onnx_to_webnn, "relu", "Relu");
        add_mapping(&mut webnn_to_onnx, &mut onnx_to_webnn, "sigmoid", "Sigmoid");
        add_mapping(&mut webnn_to_onnx, &mut onnx_to_webnn, "tanh", "Tanh");
        add_mapping(&mut webnn_to_onnx, &mut onnx_to_webnn, "softmax", "Softmax");
        add_mapping(&mut webnn_to_onnx, &mut onnx_to_webnn, "prelu", "PRelu");
        add_mapping(&mut webnn_to_onnx, &mut onnx_to_webnn, "leakyRelu", "LeakyRelu");
        add_mapping(&mut webnn_to_onnx, &mut onnx_to_webnn, "elu", "Elu");
        add_mapping(&mut webnn_to_onnx, &mut onnx_to_webnn, "clamp", "Clip");
        add_mapping(&mut webnn_to_onnx, &mut onnx_to_webnn, "gelu", "Gelu");
        add_mapping(&mut webnn_to_onnx, &mut onnx_to_webnn, "hardSigmoid", "HardSigmoid");
        add_mapping(&mut webnn_to_onnx, &mut onnx_to_webnn, "hardSwish", "HardSwish");
        add_mapping(&mut webnn_to_onnx, &mut onnx_to_webnn, "softplus", "Softplus");
        add_mapping(&mut webnn_to_onnx, &mut onnx_to_webnn, "softsign", "Softsign");
        add_mapping(&mut webnn_to_onnx, &mut onnx_to_webnn, "add", "Add");
        add_mapping(&mut webnn_to_onnx, &mut onnx_to_webnn, "sub", "Sub");
        add_mapping(&mut webnn_to_onnx, &mut onnx_to_webnn, "mul", "Mul");
        add_mapping(&mut webnn_to_onnx, &mut onnx_to_webnn, "div", "Div");
        add_mapping(&mut webnn_to_onnx, &mut onnx_to_webnn, "pow", "Pow");
        add_mapping(&mut webnn_to_onnx, &mut onnx_to_webnn, "max", "Max");
        add_mapping(&mut webnn_to_onnx, &mut onnx_to_webnn, "min", "Min");
        add_mapping(&mut webnn_to_onnx, &mut onnx_to_webnn, "abs", "Abs");
        add_mapping(&mut webnn_to_onnx, &mut onnx_to_webnn, "ceil", "Ceil");
        add_mapping(&mut webnn_to_onnx, &mut onnx_to_webnn, "cos", "Cos");
        add_mapping(&mut webnn_to_onnx, &mut onnx_to_webnn, "exp", "Exp");
        add_mapping(&mut webnn_to_onnx, &mut onnx_to_webnn, "floor", "Floor");
        add_mapping(&mut webnn_to_onnx, &mut onnx_to_webnn, "log", "Log");
        add_mapping(&mut webnn_to_onnx, &mut onnx_to_webnn, "neg", "Neg");
        add_mapping(&mut webnn_to_onnx, &mut onnx_to_webnn, "reciprocal", "Reciprocal");
        add_mapping(&mut webnn_to_onnx, &mut onnx_to_webnn, "sin", "Sin");
        add_mapping(&mut webnn_to_onnx, &mut onnx_to_webnn, "sqrt", "Sqrt");
        add_mapping(&mut webnn_to_onnx, &mut onnx_to_webnn, "tan", "Tan");
        add_mapping(&mut webnn_to_onnx, &mut onnx_to_webnn, "erf", "Erf");
        add_mapping(&mut webnn_to_onnx, &mut onnx_to_webnn, "identity", "Identity");
        add_mapping(&mut webnn_to_onnx, &mut onnx_to_webnn, "sign", "Sign");
        add_mapping(&mut webnn_to_onnx, &mut onnx_to_webnn, "reduceSum", "ReduceSum");
        add_mapping(&mut webnn_to_onnx, &mut onnx_to_webnn, "reduceMean", "ReduceMean");
        add_mapping(&mut webnn_to_onnx, &mut onnx_to_webnn, "reduceMax", "ReduceMax");
        add_mapping(&mut webnn_to_onnx, &mut onnx_to_webnn, "reduceMin", "ReduceMin");
        add_mapping(&mut webnn_to_onnx, &mut onnx_to_webnn, "reduceProduct", "ReduceProd");
        add_mapping(&mut webnn_to_onnx, &mut onnx_to_webnn, "reduceL1", "ReduceL1");
        add_mapping(&mut webnn_to_onnx, &mut onnx_to_webnn, "reduceL2", "ReduceL2");
        add_mapping(&mut webnn_to_onnx, &mut onnx_to_webnn, "reduceLogSum", "ReduceLogSum");
        add_mapping(&mut webnn_to_onnx, &mut onnx_to_webnn, "reduceLogSumExp", "ReduceLogSumExp");
        add_mapping(&mut webnn_to_onnx, &mut onnx_to_webnn, "reduceSumSquare", "ReduceSumSquare");
        add_mapping(&mut webnn_to_onnx, &mut onnx_to_webnn, "equal", "Equal");
        add_mapping(&mut webnn_to_onnx, &mut onnx_to_webnn, "greater", "Greater");
        add_mapping(&mut webnn_to_onnx, &mut onnx_to_webnn, "greaterOrEqual", "GreaterOrEqual");
        add_mapping(&mut webnn_to_onnx, &mut onnx_to_webnn, "lesser", "Less");
        add_mapping(&mut webnn_to_onnx, &mut onnx_to_webnn, "lesserOrEqual", "LessOrEqual");
        add_mapping(&mut webnn_to_onnx, &mut onnx_to_webnn, "logicalAnd", "And");
        add_mapping(&mut webnn_to_onnx, &mut onnx_to_webnn, "logicalOr", "Or");
        add_mapping(&mut webnn_to_onnx, &mut onnx_to_webnn, "logicalNot", "Not");
        add_mapping(&mut webnn_to_onnx, &mut onnx_to_webnn, "logicalXor", "Xor");
        add_mapping(&mut webnn_to_onnx, &mut onnx_to_webnn, "concat", "Concat");
        add_mapping(&mut webnn_to_onnx, &mut onnx_to_webnn, "expand", "Expand");
        add_mapping(&mut webnn_to_onnx, &mut onnx_to_webnn, "gather", "Gather");
        add_mapping(&mut webnn_to_onnx, &mut onnx_to_webnn, "pad", "Pad");
        add_mapping(&mut webnn_to_onnx, &mut onnx_to_webnn, "reshape", "Reshape");
        add_mapping(&mut webnn_to_onnx, &mut onnx_to_webnn, "slice", "Slice");
        add_mapping(&mut webnn_to_onnx, &mut onnx_to_webnn, "split", "Split");
        add_mapping(&mut webnn_to_onnx, &mut onnx_to_webnn, "squeeze", "Squeeze");
        add_mapping(&mut webnn_to_onnx, &mut onnx_to_webnn, "tile", "Tile");
        add_mapping(&mut webnn_to_onnx, &mut onnx_to_webnn, "transpose", "Transpose");
        add_mapping(&mut webnn_to_onnx, &mut onnx_to_webnn, "unsqueeze", "Unsqueeze");
        add_mapping(&mut webnn_to_onnx, &mut onnx_to_webnn, "where", "Where");
        add_mapping(&mut webnn_to_onnx, &mut onnx_to_webnn, "triangular", "Trilu");
        add_mapping(&mut webnn_to_onnx, &mut onnx_to_webnn, "resample2d", "Resize");
        add_mapping(&mut webnn_to_onnx, &mut onnx_to_webnn, "quantizeLinear", "QuantizeLinear");
        add_mapping(&mut webnn_to_onnx, &mut onnx_to_webnn, "dequantizeLinear", "DequantizeLinear");
        add_mapping(&mut webnn_to_onnx, &mut onnx_to_webnn, "gru", "GRU");
        add_mapping(&mut webnn_to_onnx, &mut onnx_to_webnn, "gruCell", "GRU");
        add_mapping(&mut webnn_to_onnx, &mut onnx_to_webnn, "lstm", "LSTM");
        add_mapping(&mut webnn_to_onnx, &mut onnx_to_webnn, "lstmCell", "LSTM");
        add_mapping(&mut webnn_to_onnx, &mut onnx_to_webnn, "argMax", "ArgMax");
        add_mapping(&mut webnn_to_onnx, &mut onnx_to_webnn, "argMin", "ArgMin");
        add_mapping(&mut webnn_to_onnx, &mut onnx_to_webnn, "cast", "Cast");
        add_mapping(&mut webnn_to_onnx, &mut onnx_to_webnn, "flatten", "Flatten");

        let r = OpNameMapper { webnn_to_onnx, onnx_to_webnn };
        proof {
            assert(r.w2o_pairs() =~= op_table().map_values(
                |p: (Seq<char>, Seq<char>)| (lower_chars(p.0), p.1),
            ));
            assert(r.o2w_pairs() =~= op_table().map_values(
                |p: (Seq<char>, Seq<char>)| (lower_chars(p.1), p.0),
            ));
        }
        r
    }

    /// Translates a runtime operator name (case-insensitively) to the
    /// interchange name.
    #[verifier::loop_isolation(false)]
    pub fn webnn_to_onnx(&self, webnn_op: &str) -> (r: Option<&str>)
        ensures
            match r {
                Some(o) => self.w2o_map().contains_key(lower_chars(webnn_op@)) && o@
                    == self.w2o_map()[lower_chars(webnn_op@)],
                None => !self.w2o_map().contains_key(lower_chars(webnn_op@)),
            },
    {
        let key = lower_str(webnn_op);
        let mut i: usize = self.webnn_to_onnx.len();
        while i > 0
            invariant
                i <= self.webnn_to_onnx@.len(),
                forall|l: int|
                    i <= l < self.webnn_to_onnx@.len() ==> self.webnn_to_onnx@[l].0@ != key@,
            decreases i,
        {
            i = i - 1;
            if str_eq(self.webnn_to_onnx[i].0.as_str(), key.as_str()) {
                proof {
                    assert forall|l: int|
                        i < l < self.w2o_pairs().len() implies (#[trigger] self.w2o_pairs()[l]).0
                        != key@ by {
                        assert(self.w2o_pairs()[l].0 == self.webnn_to_onnx@[l].0@);
                    }
                    assert(self.w2o_pairs()[i as int].0 == key@);
                    lemma_pairs_map_found(self.w2o_pairs(), key@, i as int);
                    assert(self.w2o_pairs()[i as int].1 == self.webnn_to_onnx@[i as int].1@);
                }
                return Some(self.webnn_to_onnx[i].1.as_str());
            }
        }
        proof {
            assert forall|l: int|
                0 <= l < self.w2o_pairs().len() implies (#[trigger] self.w2o_pairs()[l]).0
                != key@ by {
                assert(self.w2o_pairs()[l].0 == self.webnn_to_onnx@[l].0@);
            }
            lemma_pairs_map_absent(self.w2o_pairs(), key@);
        }
        None
    }

    /// Translates an interchange operator name (case-insensitively) to
    /// the runtime name.
    #[verifier::loop_isolation(false)]
    pub fn onnx_to_webnn(&self, onnx_op: &str) -> (r: Option<&str>)
        ensures
            match r {
                Some(o) => self.o2w_map().contains_key(lower_chars(onnx_op@)) && o@
                    == self.o2w_map()[lower_chars(onnx_op@)],
                None => !self.o2w_map().contains_key(lower_chars(onnx_op@)),
            },
    {
        let key = lower_str(onnx_op);
        let mut i: usize = self.onnx_to_webnn.len();
        while i > 0
            invariant
                i <= self.onnx_to_webnn@.len(),
                forall|l: int|
                    i <= l < self.onnx_to_webnn@.len() ==> self.onnx_to_webnn@[l].0@ != key@,
            decreases i,
        {
            i = i - 1;
            if str_eq(self.onnx_to_webnn[i].0.as_str(), key.as_str()) {
                proof {
                    assert forall|l: int|
                        i < l < self.o2w_pairs().len() implies (#[trigger] self.o2w_pairs()[l]).0
                        != key@ by {
                        assert(self.o2w_pairs()[l].0 == self.onnx_to_webnn@[l].0@);
                    }
                    assert(self.o2w_pairs()[i as int].0 == key@);
                    lemma_pairs_map_found(self.o2w_pairs(), key@, i as int);
                    assert(self.o2w_pairs()[i as int].1 == self.onnx_to_webnn@[i as int].1@);
                }
                return Some(self.onnx_to_webnn[i].1.as_str());
            }
        }
        proof {
            assert forall|l: int|
                0 <= l < self.o2w_pairs().len() implies (#[trigger] self.o2w_pairs()[l]).0
                != key@ by {
                assert(self.o2w_pairs()[l].0 == self.onnx_to_webnn@[l].0@);
            }
            lemma_pairs_map_absent(self.o2w_pairs(), key@);
        }
        None
    }
}

impl Default for OpNameMapper {
    fn default() -> (r: Self)
        ensures
            r.w2o_pairs() == op_table().map_values(
                |p: (Seq<char>, Seq<char>)| (lower_chars(p.0), p.1),
            ),
            r.o2w_pairs() == op_table().map_values(
                |p: (Seq<char>, Seq<char>)| (lower_chars(p.1), p.0),
            ),
    {
        OpNameMapper::new()
    }
}

/// A freshly built operator-name mapper over the canonical table.
pub fn mapper() -> (r: OpNameMapper)
    ensures
        r.w2o_pairs() == op_table().map_values(
            |p: (Seq<char>, Seq<char>)| (lower_chars(p.0), p.1),
        ),
        r.o2w_pairs() == op_table().map_values(
            |p: (Seq<char>, Seq<char>)| (lower_chars(p.1), p.0),
        ),
{
    OpNameMapper::new()
}

} // verus!
