//! The assembler's vocabulary: register names, mnemonics and immediate
//! flags, each mapped to its numeric field value.

use crate::rasm_text::chars_eq_str;
use vstd::prelude::*;
use vstd::string::StringExecFns;

verus! {

/// The dictionary as a mathematical partial map from (upper-case) token
/// to value.
pub open spec fn translate_spec(t: Seq<char>) -> Option<u8> {
    if t == "R0"@ {
        Some(0x00u8)
    } else if t == "R1"@ {
        Some(0x01u8)
    } else if t == "R2"@ {
        Some(0x02u8)
    } else if t == "R3"@ {
        Some(0x03u8)
    } else if t == "R4"@ {
        Some(0x04u8)
    } else if t == "R5"@ {
        Some(0x05u8)
    } else if t == "R6"@ {
        Some(0x06u8)
    } else if t == "R7"@ {
        Some(0x07u8)
    } else if t == "BZ0"@ {
        Some(0x08u8)
    } else if t == "LV0"@ {
        Some(0x09u8)
    } else if t == "D0"@ {
        Some(0x0au8)
    } else if t == "D1"@ {
        Some(0x0bu8)
    } else if t == "D2"@ {
        Some(0x0cu8)
    } else if t == "D3"@ {
        Some(0x0du8)
    } else if t == "CNT"@ {
        Some(0x0eu8)
    } else if t == "IO"@ {
        Some(0x0fu8)
    } else if t == "ADD"@ {
        Some(0x00u8)
    } else if t == "SUB"@ {
        Some(0x01u8)
    } else if t == "AND"@ {
        Some(0x02u8)
    } else if t == "OR"@ {
        Some(0x03u8)
    } else if t == "NOT"@ {
        Some(0x04u8)
    } else if t == "XOR"@ {
        Some(0x05u8)
    } else if t == "SHL"@ {
        Some(0x06u8)
    } else if t == "SHR"@ {
        Some(0x07u8)
    } else if t == "RAN_SS"@ {
        Some(0x0cu8)
    } else if t == "RAN_NEXT"@ {
        Some(0x0du8)
    } else if t == "NOOP"@ {
        Some(0x0fu8)
    } else if t == "IF_EQ"@ {
        Some(0x20u8)
    } else if t == "IF_N_EQ"@ {
        Some(0x21u8)
    } else if t == "IF_LT"@ {
        Some(0x22u8)
    } else if t == "IF_LTE"@ {
        Some(0x23u8)
    } else if t == "IF_MT"@ {
        Some(0x24u8)
    } else if t == "IF_MTE"@ {
        Some(0x25u8)
    } else if t == "IF_T"@ {
        Some(0x26u8)
    } else if t == "IF_F"@ {
        Some(0x27u8)
    } else if t == "RAM_R"@ {
        Some(0x10u8)
    } else if t == "RAM_W"@ {
        Some(0x11u8)
    } else if t == "S_POP"@ {
        Some(0x18u8)
    } else if t == "S_PUSH"@ {
        Some(0x19u8)
    } else if t == "RET"@ {
        Some(0x1au8)
    } else if t == "CALL"@ {
        // CALL carries its target as an immediate in arg1, so the
        // mnemonic already includes the IM1 flag: 0x1B + 0x80.
        Some(0x9bu8)
    } else if t == "IM2"@ {
        Some(0x40u8)
    } else if t == "IM1"@ {
        Some(0x80u8)
    } else if t == "MOV"@ {
        // MOV is ADD with an immediate second operand of zero.
        Some(0x40u8)
    } else if t == "JMP"@ {
        // JMP is the unconditionally true CU comparison.
        Some(0x26u8)
    } else {
        None
    }
}

pub struct RasmDictionary {}

/// Look a token up in the dictionary; tokens are expected upper-case.
pub fn translate_chars(t: &Vec<char>) -> (r: Option<u8>)
    ensures
        r == translate_spec(t@),
{
    if chars_eq_str(t, "R0") {
        Some(0x00u8)
    } else if chars_eq_str(t, "R1") {
        Some(0x01u8)
    } else if chars_eq_str(t, "R2") {
        Some(0x02u8)
    } else if chars_eq_str(t, "R3") {
        Some(0x03u8)
    } else if chars_eq_str(t, "R4") {
        Some(0x04u8)
    } else if chars_eq_str(t, "R5") {
        Some(0x05u8)
    } else if chars_eq_str(t, "R6") {
        Some(0x06u8)
    } else if chars_eq_str(t, "R7") {
        Some(0x07u8)
    } else if chars_eq_str(t, "BZ0") {
        Some(0x08u8)
    } else if chars_eq_str(t, "LV0") {
        Some(0x09u8)
    } else if chars_eq_str(t, "D0") {
        Some(0x0au8)
    } else if chars_eq_str(t, "D1") {
        Some(0x0bu8)
    } else if chars_eq_str(t, "D2") {
        Some(0x0cu8)
    } else if chars_eq_str(t, "D3") {
        Some(0x0du8)
    } else if chars_eq_str(t, "CNT") {
        Some(0x0eu8)
    } else if chars_eq_str(t, "IO") {
        Some(0x0fu8)
    } else if chars_eq_str(t, "ADD") {
        Some(0x00u8)
    } else if chars_eq_str(t, "SUB") {
        Some(0x01u8)
    } else if chars_eq_str(t, "AND") {
        Some(0x02u8)
    } else if chars_eq_str(t, "OR") {
        Some(0x03u8)
    } else if chars_eq_str(t, "NOT") {
        Some(0x04u8)
    } else if chars_eq_str(t, "XOR") {
        Some(0x05u8)
    } else if chars_eq_str(t, "SHL") {
        Some(0x06u8)
    } else if chars_eq_str(t, "SHR") {
        Some(0x07u8)
    } else if chars_eq_str(t, "RAN_SS") {
        Some(0x0cu8)
    } else if chars_eq_str(t, "RAN_NEXT") {
        Some(0x0du8)
    } else if chars_eq_str(t, "NOOP") {
        Some(0x0fu8)
    } else if chars_eq_str(t, "IF_EQ") {
        Some(0x20u8)
    } else if chars_eq_str(t, "IF_N_EQ") {
        Some(0x21u8)
    } else if chars_eq_str(t, "IF_LT") {
        Some(0x22u8)
    } else if chars_eq_str(t, "IF_LTE") {
        Some(0x23u8)
    } else if chars_eq_str(t, "IF_MT") {
        Some(0x24u8)
    } else if chars_eq_str(t, "IF_MTE") {
        Some(0x25u8)
    } else if chars_eq_str(t, "IF_T") {
        Some(0x26u8)
    } else if chars_eq_str(t, "IF_F") {
        Some(0x27u8)
    } else if chars_eq_str(t, "RAM_R") {
        Some(0x10u8)
    } else if chars_eq_str(t, "RAM_W") {
        Some(0x11u8)
    } else if chars_eq_str(t, "S_POP") {
        Some(0x18u8)
    } else if chars_eq_str(t, "S_PUSH") {
        Some(0x19u8)
    } else if chars_eq_str(t, "RET") {
        Some(0x1au8)
    } else if chars_eq_str(t, "CALL") {
        Some(0x9bu8)
    } else if chars_eq_str(t, "IM2") {
        Some(0x40u8)
    } else if chars_eq_str(t, "IM1") {
        Some(0x80u8)
    } else if chars_eq_str(t, "MOV") {
        Some(0x40u8)
    } else if chars_eq_str(t, "JMP") {
        Some(0x26u8)
    } else {
        None
    }
}

impl RasmDictionary {
    /// Look an upper-case token up in the dictionary.
    pub fn translate(token: &str) -> (r: Result<u8, String>)
        ensures
            match translate_spec(token@) {
                Some(v) => r == Result::<u8, String>::Ok(v),
                Option::None => r is Err,
            },
    {
        let chars = crate::rasm_text::str_to_chars(token);
        match translate_chars(&chars) {
            Some(v) => Ok(v),
            Option::None => Err(String::from_str("Not in dictionary")),
        }
    }
}

} // verus!
