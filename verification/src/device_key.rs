//! The keys under which devices receive notifications.
use crate::api::{self, Refusal, Status};
use crate::text;
use vstd::prelude::*;

verus! {

/// The most characters of a device key.
pub const MAX_DEVICE_KEY_CHARS: usize = 64;

/// Whether a text is a device key: one to sixty-four ASCII letters and digits.
pub open spec fn is_device_key(s: Seq<char>) -> bool {
    0 < s.len() <= MAX_DEVICE_KEY_CHARS && text::all_alphanumeric(s)
}

/// Why a text is no device key. Its length is counted in bytes.
pub open spec fn device_key_fault(s: Seq<char>) -> Option<Seq<char>> {
    if s.len() == 0 {
        Some("Bark Key 不能为空"@)
    } else if vstd::utf8::encode_utf8(s).len() > MAX_DEVICE_KEY_CHARS {
        Some("Bark Key 过长（最大64字符）"@)
    } else if !text::all_alphanumeric(s) {
        Some("Bark Key 只能包含字母、数字"@)
    } else {
        None
    }
}

/// A text without white space around it is a device key unless there is a fault in it.
pub proof fn lemma_device_key_fault(s: Seq<char>)
    ensures
        device_key_fault(s) is None <==> is_device_key(s),
{
    if text::all_alphanumeric(s) {
        assert(vstd::utf8::is_ascii_chars(s));
        vstd::utf8::is_ascii_chars_encode_utf8(s);
    }
}

/// The device key that stands in a text, with white space around it.
pub fn validate_device_key(raw: &str) -> (r: Result<String, Refusal>)
    ensures
        match r {
            Ok(key) => key@ == text::trimmed(raw@) && device_key_fault(text::trimmed(raw@)) is None,
            Err(refusal) => device_key_fault(text::trimmed(raw@)) is Some && api::refused_with(
                refusal,
                Status::BadRequest,
                device_key_fault(text::trimmed(raw@))->0,
            ),
        },
        r is Ok <==> is_device_key(text::trimmed(raw@)),
{
    let trimmed = text::trim(raw);
    proof {
        lemma_device_key_fault(trimmed@);
    }
    if trimmed.is_empty() {
        return Err((Status::BadRequest, "Bark Key 不能为空".to_owned()));
    }
    if trimmed.as_bytes().len() > MAX_DEVICE_KEY_CHARS {
        return Err((Status::BadRequest, "Bark Key 过长（最大64字符）".to_owned()));
    }
    if !text::is_all_alphanumeric(trimmed) {
        return Err((Status::BadRequest, "Bark Key 只能包含字母、数字".to_owned()));
    }
    Ok(trimmed.to_owned())
}

/// A key is accepted exactly where, without the white space around it, it is made of one to
/// sixty-four ASCII letters and digits, and it is accepted without that white space.
pub proof fn law_device_keys(raw: &str, r: Result<String, Refusal>)
    requires
        call_ensures(validate_device_key, (raw,), r),
    ensures
        r is Ok <==> {
            let key = text::trimmed(raw@);
            &&& 1 <= key.len() <= 64
            &&& forall|i: int|
                0 <= i < key.len() ==> {
                    ||| 'a' <= #[trigger] key[i] <= 'z'
                    ||| 'A' <= key[i] <= 'Z'
                    ||| '0' <= key[i] <= '9'
                }
        },
        r matches Ok(key) ==> key@ == text::trimmed(raw@),
        r matches Err(refusal) ==> refusal.0 == Status::BadRequest,
{
}

/// An empty key, one that is too long and one with other characters are refused in words of their
/// own.
pub proof fn law_faults_of_keys_differ(raw: &str, r: Result<String, Refusal>)
    requires
        call_ensures(validate_device_key, (raw,), r),
        r is Err,
    ensures
        text::trimmed(raw@).len() == 0 <==> r->Err_0.1@ == "Bark Key 不能为空"@,
        text::trimmed(raw@).len() > 0 && vstd::utf8::encode_utf8(text::trimmed(raw@)).len() > 64
            <==> r->Err_0.1@ == "Bark Key 过长（最大64字符）"@,
{
    reveal_strlit("Bark Key 不能为空");
    reveal_strlit("Bark Key 过长（最大64字符）");
    reveal_strlit("Bark Key 只能包含字母、数字");
    assert("Bark Key 不能为空"@[9] == '不');
    assert("Bark Key 过长（最大64字符）"@[9] == '过');
    assert("Bark Key 只能包含字母、数字"@[9] == '只');
}

} // verus!
