//! The payload sniffer for imported loot-record files: classifies an
//! opaque byte buffer as the known binary envelope or as plain text,
//! checks that it holds a serialized table literal, and parses it.
//! Every outcome is reported in the response; the call itself never
//! fails.

use vstd::prelude::*;

use crate::json::json_parse;
use crate::json::spec_json_parse;
use crate::json::JsonValue;
use vstd::utf8::decode_utf8;
use vstd::utf8::valid_utf8;

verus! {

/// A request to parse an imported buffer, with pass-through options.
pub struct GkpParseRequest {
    pub buffer: Vec<u8>,
    pub options: Option<std::collections::HashMap<String, String>>,
}

/// The outcome: either the parsed document or a message saying what
/// the buffer failed to be.
pub struct GkpParseResponse {
    pub success: bool,
    pub data: Option<JsonValue>,
    pub error: Option<String>,
}

/// The eight-byte signature of the binary envelope.
pub open spec fn spec_gkp_sig(b: Seq<u8>) -> bool {
    &&& b.len() >= 8
    &&& b[0] == 0x20u8
    &&& b[1] == 0x61u8
    &&& b[2] == 0x74u8
    &&& b[3] == 0x17u8
    &&& b[4] == 0x46u8
    &&& b[5] == 0x14u8
    &&& b[6] == 0x46u8
    &&& b[7] == 0x17u8
}

/// Whitespace the sniffer strips at either end of the text: the four
/// ASCII whitespace characters JSON itself allows around a value.
/// This is narrower than Unicode whitespace, so text padded with, say,
/// a no-break space or a form feed is not taken for a braced document.
pub open spec fn spec_is_ws(c: char) -> bool {
    c == ' ' || c == '\t' || c == '\n' || c == '\r'
}

/// How many whitespace characters lead the text.
pub open spec fn spec_ws_prefix_len(s: Seq<char>) -> nat
    decreases s.len(),
{
    if s.len() == 0 || !spec_is_ws(s[0]) {
        0
    } else {
        1 + spec_ws_prefix_len(s.drop_first())
    }
}

/// How many whitespace characters trail the text.
pub open spec fn spec_ws_suffix_len(s: Seq<char>) -> nat
    decreases s.len(),
{
    if s.len() == 0 || !spec_is_ws(s.last()) {
        0
    } else {
        1 + spec_ws_suffix_len(s.drop_last())
    }
}

/// Whether the text, with surrounding whitespace stripped, opens with
/// a brace and closes with one: the shape of a serialized table
/// literal.
pub open spec fn spec_trimmed_braces(s: Seq<char>) -> bool {
    let i = spec_ws_prefix_len(s) as int;
    let j = s.len() - spec_ws_suffix_len(s) - 1;
    &&& i <= j
    &&& s[i] == '{'
    &&& s[j] == '}'
}

proof fn lemma_ws_prefix_at(s: Seq<char>, i: int)
    requires
        0 <= i <= s.len(),
        forall|k: int| 0 <= k < i ==> spec_is_ws(#[trigger] s[k]),
        i == s.len() || !spec_is_ws(s[i]),
    ensures
        spec_ws_prefix_len(s) == i,
    decreases i,
{
    if i == 0 {
    } else {
        assert(spec_is_ws(s[0]));
        assert(forall|k: int| 0 <= k < s.len() - 1 ==> s.drop_first()[k] == s[k + 1]);
        lemma_ws_prefix_at(s.drop_first(), i - 1);
    }
}

proof fn lemma_ws_suffix_at(s: Seq<char>, m: int)
    requires
        0 <= m <= s.len(),
        forall|k: int| s.len() - m <= k < s.len() ==> spec_is_ws(#[trigger] s[k]),
        m == s.len() || !spec_is_ws(s[s.len() - m - 1]),
    ensures
        spec_ws_suffix_len(s) == m,
    decreases m,
{
    if m == 0 {
    } else {
        assert(spec_is_ws(s.last()));
        assert(forall|k: int| 0 <= k < s.len() - 1 ==> s.drop_last()[k] == s[k]);
        lemma_ws_suffix_at(s.drop_last(), m - 1);
    }
}

/// Whether the decoded text has the table-literal shape.
fn trimmed_braces(s: &String) -> (r: bool)
    ensures
        r == spec_trimmed_braces(s@),
{
    let n = s.as_str().unicode_len();
    let mut i: usize = 0;
    let mut stopped = false;
    while i < n && !stopped
        invariant
            i <= n == s@.len(),
            forall|k: int| 0 <= k < i ==> spec_is_ws(#[trigger] s@[k]),
            stopped ==> i < n && !spec_is_ws(s@[i as int]),
        decreases n - i, 1int - if stopped { 1int } else { 0int },
    {
        let c = s.as_str().get_char(i);
        if c == ' ' || c == '\t' || c == '\n' || c == '\r' {
            i = i + 1;
        } else {
            stopped = true;
        }
    }
    proof {
        lemma_ws_prefix_at(s@, i as int);
    }
    if !stopped {
        return false;
    }
    let mut m: usize = 0;
    let mut stopped2 = false;
    while m < n && !stopped2
        invariant
            m <= n == s@.len(),
            forall|k: int| n - m <= k < n ==> spec_is_ws(#[trigger] s@[k]),
            stopped2 ==> m < n && !spec_is_ws(s@[n - m - 1]),
        decreases n - m, 1int - if stopped2 { 1int } else { 0int },
    {
        let c = s.as_str().get_char(n - m - 1);
        if c == ' ' || c == '\t' || c == '\n' || c == '\r' {
            m = m + 1;
        } else {
            stopped2 = true;
        }
    }
    proof {
        lemma_ws_suffix_at(s@, m as int);
    }
    let j = n - m;
    if j == 0 || i > j - 1 {
        return false;
    }
    let open = s.as_str().get_char(i);
    let close = s.as_str().get_char(j - 1);
    open == '{' && close == '}'
}

/// Relies on String::from_utf8: the bytes decode exactly when they
/// are valid UTF-8, to the character sequence of vstd's UTF-8 model.
#[verifier::external_body]
fn utf8_to_string(bytes: &Vec<u8>) -> (r: Option<String>)
    ensures
        r is Some <==> valid_utf8(bytes@),
        match r {
            Some(s) => s@ == decode_utf8(bytes@),
            None => true,
        },
{
    match String::from_utf8(bytes.clone()) {
        Ok(s) => Some(s),
        Err(_) => None,
    }
}

/// What the sniffer answers for a buffer: rejected as too small,
/// recognized by the binary signature or treated as text, then
/// required to decode, to look like a table literal, and to parse.
pub open spec fn spec_gkp_outcome(b: Seq<u8>) -> (Option<JsonValue>, Option<Seq<char>>) {
    if b.len() < 8 {
        (None, Some("文件太小"@))
    } else if spec_gkp_sig(b) {
        if !valid_utf8(b) {
            (None, Some("解析失败: UTF-8解码失败"@))
        } else if !spec_trimmed_braces(decode_utf8(b)) {
            (None, Some("解析失败: 不是Lua表格式"@))
        } else {
            match spec_json_parse(decode_utf8(b)) {
                Some(v) => (Some(v), None),
                None => (None, Some("解析失败: JSON解析失败"@)),
            }
        }
    } else {
        if !valid_utf8(b) {
            (None, Some("UTF-8解码失败"@))
        } else if !spec_trimmed_braces(decode_utf8(b)) {
            (None, Some("不是Lua表格式"@))
        } else {
            match spec_json_parse(decode_utf8(b)) {
                Some(v) => (Some(v), None),
                None => (None, Some("无法解析JSON"@)),
            }
        }
    }
}

/// Classifies and parses an imported buffer. The call always answers;
/// success, the parsed document and the failure message are exactly
/// what `spec_gkp_outcome` states for the bytes.
pub fn parse_binary_gkp(request: GkpParseRequest) -> (r: Result<GkpParseResponse, String>)
    ensures
        match r {
            Ok(resp) => {
                &&& resp.data == spec_gkp_outcome(request.buffer@).0
                &&& (match resp.error {
                    Some(e) => spec_gkp_outcome(request.buffer@).1 == Some(e@),
                    None => spec_gkp_outcome(request.buffer@).1 is None,
                })
                &&& resp.success == (spec_gkp_outcome(request.buffer@).0 is Some)
            },
            Err(_) => false,
        },
{
    let b = &request.buffer;
    if b.len() < 8 {
        return Ok(
            GkpParseResponse {
                success: false,
                data: None,
                error: Some(String::from_str("文件太小")),
            },
        );
    }
    let is_binary = b[0] == 0x20 && b[1] == 0x61 && b[2] == 0x74 && b[3] == 0x17 && b[4] == 0x46
        && b[5] == 0x14 && b[6] == 0x46 && b[7] == 0x17;
    let decoded = utf8_to_string(b);
    let resp = match decoded {
        None => GkpParseResponse {
            success: false,
            data: None,
            error: Some(
                String::from_str(
                    if is_binary {
                        "解析失败: UTF-8解码失败"
                    } else {
                        "UTF-8解码失败"
                    },
                ),
            ),
        },
        Some(text) => {
            if !trimmed_braces(&text) {
                GkpParseResponse {
                    success: false,
                    data: None,
                    error: Some(
                        String::from_str(
                            if is_binary {
                                "解析失败: 不是Lua表格式"
                            } else {
                                "不是Lua表格式"
                            },
                        ),
                    ),
                }
            } else {
                match json_parse(text.as_str()) {
                    Some(v) => GkpParseResponse { success: true, data: Some(v), error: None },
                    None => GkpParseResponse {
                        success: false,
                        data: None,
                        error: Some(
                            String::from_str(
                                if is_binary {
                                    "解析失败: JSON解析失败"
                                } else {
                                    "无法解析JSON"
                                },
                            ),
                        ),
                    },
                }
            }
        },
    };
    Ok(resp)
}

} // verus!
