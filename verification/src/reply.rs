//! The replies the engine gives, and their literal text.

use vstd::prelude::*;
use vstd::string::StringExecFns;

verus! {

/// What the engine answers to one message. `NoReply` means silence: the
/// message was no command, or a command chose its silent no-op.
#[derive(Debug)]
pub enum Reply {
    NoReply,
    /// The registration usage hint.
    RegisterUsage,
    /// The fixed confirmation of a registration.
    Registered,
    /// The overwrite usage hint.
    OverwriteUsage,
    /// The resulting count, announced as a plain number.
    CountValue(i32),
    /// The composed milestone celebration text.
    Praise(String),
    /// The confirmation of a deletion, naming the deleted pattern's text.
    Deleted(String),
}

/// Abstract shape of a reply. The milestone text itself rests on a random
/// choice, so the model records only that a celebration was sent.
pub ghost enum ReplyModel {
    NoReply,
    RegisterUsage,
    Registered,
    OverwriteUsage,
    CountValue(int),
    Praise,
    Deleted(Seq<char>),
}

/// The model of a concrete reply.
pub open spec fn reply_model(r: Reply) -> ReplyModel {
    match r {
        Reply::NoReply => ReplyModel::NoReply,
        Reply::RegisterUsage => ReplyModel::RegisterUsage,
        Reply::Registered => ReplyModel::Registered,
        Reply::OverwriteUsage => ReplyModel::OverwriteUsage,
        Reply::CountValue(n) => ReplyModel::CountValue(n as int),
        Reply::Praise(_) => ReplyModel::Praise,
        Reply::Deleted(p) => ReplyModel::Deleted(p@),
    }
}

/// The decimal digit character of a value below ten.
pub open spec fn dec_digit(d: int) -> char {
    if d == 0 {
        '0'
    } else if d == 1 {
        '1'
    } else if d == 2 {
        '2'
    } else if d == 3 {
        '3'
    } else if d == 4 {
        '4'
    } else if d == 5 {
        '5'
    } else if d == 6 {
        '6'
    } else if d == 7 {
        '7'
    } else if d == 8 {
        '8'
    } else {
        '9'
    }
}

/// The decimal numeral of a non-negative number, most significant digit
/// first, without leading zeros.
pub open spec fn dec_nat(n: int) -> Seq<char>
    decreases n,
{
    if n < 10 {
        seq![dec_digit(n)]
    } else {
        dec_nat(n / 10).push(dec_digit(n % 10))
    }
}

/// The decimal numeral of any number, with a minus sign before a negative
/// one.
pub open spec fn dec_int(n: int) -> Seq<char> {
    if n < 0 {
        seq!['-'] + dec_nat(-n)
    } else {
        dec_nat(n)
    }
}

fn dec_digit_str(d: u64) -> (r: &'static str)
    requires
        d < 10,
    ensures
        r@ == seq![dec_digit(d as int)],
{
    if d == 0 {
        proof {
            reveal_strlit("0");
            assert("0"@ =~= seq![dec_digit(0)]);
        }
        "0"
    } else if d == 1 {
        proof {
            reveal_strlit("1");
            assert("1"@ =~= seq![dec_digit(1)]);
        }
        "1"
    } else if d == 2 {
        proof {
            reveal_strlit("2");
            assert("2"@ =~= seq![dec_digit(2)]);
        }
        "2"
    } else if d == 3 {
        proof {
            reveal_strlit("3");
            assert("3"@ =~= seq![dec_digit(3)]);
        }
        "3"
    } else if d == 4 {
        proof {
            reveal_strlit("4");
            assert("4"@ =~= seq![dec_digit(4)]);
        }
        "4"
    } else if d == 5 {
        proof {
            reveal_strlit("5");
            assert("5"@ =~= seq![dec_digit(5)]);
        }
        "5"
    } else if d == 6 {
        proof {
            reveal_strlit("6");
            assert("6"@ =~= seq![dec_digit(6)]);
        }
        "6"
    } else if d == 7 {
        proof {
            reveal_strlit("7");
            assert("7"@ =~= seq![dec_digit(7)]);
        }
        "7"
    } else if d == 8 {
        proof {
            reveal_strlit("8");
            assert("8"@ =~= seq![dec_digit(8)]);
        }
        "8"
    } else {
        proof {
            reveal_strlit("9");
            assert("9"@ =~= seq![dec_digit(9)]);
        }
        "9"
    }
}

fn render_u64(n: u64) -> (r: String)
    ensures
        r@ == dec_nat(n as int),
    decreases n,
{
    if n < 10 {
        String::from_str(dec_digit_str(n))
    } else {
        let head = render_u64(n / 10);
        let tail = dec_digit_str(n % 10);
        let out = head.concat(tail);
        proof {
            assert(out@ =~= dec_nat(n as int / 10).push(dec_digit(n as int % 10)));
        }
        out
    }
}

/// Renders a count as plain decimal text.
pub fn render_count(n: i32) -> (r: String)
    ensures
        r@ == dec_int(n as int),
{
    if n >= 0 {
        render_u64(n as u64)
    } else {
        let m: i64 = -(n as i64);
        let digits = render_u64(m as u64);
        let out = String::from_str("-").concat(digits.as_str());
        proof {
            reveal_strlit("-");
            assert("-"@ =~= seq!['-']);
            assert(out@ =~= seq!['-'] + dec_nat(-(n as int)));
        }
        out
    }
}

/// The literal reply text of each outcome; `NoReply` sends nothing.
pub fn render_reply(r: &Reply) -> (t: Option<String>)
    ensures
        match r {
            Reply::NoReply => t is None,
            Reply::RegisterUsage => t matches Some(s) && s@ == "\"かぞえて [pattern]\" のようにお願いしてくださいヒン"@,
            Reply::Registered => t matches Some(s) && s@ == "ヒヒーン！"@,
            Reply::OverwriteUsage => t matches Some(s) && s@ == "\"うわがき [パターン] [量]\" のようにお願いしてくださいヒン"@,
            Reply::CountValue(n) => t matches Some(s) && s@ == dec_int(*n as int),
            Reply::Praise(p) => t matches Some(s) && s@ == p@,
            Reply::Deleted(pat) => t matches Some(s) && s@ == "削除しました: "@ + pat@,
        },
{
    match r {
        Reply::NoReply => None,
        Reply::RegisterUsage => Some(
            String::from_str("\"かぞえて [pattern]\" のようにお願いしてくださいヒン"),
        ),
        Reply::Registered => Some(String::from_str("ヒヒーン！")),
        Reply::OverwriteUsage => Some(
            String::from_str("\"うわがき [パターン] [量]\" のようにお願いしてくださいヒン"),
        ),
        Reply::CountValue(n) => Some(render_count(*n)),
        Reply::Praise(p) => Some(p.clone()),
        Reply::Deleted(pat) => Some(String::from_str("削除しました: ").concat(pat.as_str())),
    }
}

} // verus!
