//! The ticket template pool: titles, greetings, bodies and endings, combined
//! around the measured speed so that repeated tickets read naturally
//! different. The random draws go through one wrapper; everything built from
//! the drawn indices is exact.

use crate::text::{decimal_string, spec_decimal_chars};
use rand::Rng;
use vstd::prelude::*;
use vstd::string::StringExecFns;

verus! {

pub const TITLE_COUNT: usize = 12;

pub const GREETING_COUNT: usize = 4;

pub const BODY_COUNT: usize = 8;

pub const ENDING_COUNT: usize = 8;

/// The title pool.
pub open spec fn spec_title(i: int) -> Seq<char> {
    if i == 0 {
        "香港轻量应用服务器带宽被限速，请帮忙检查解除"@
    } else if i == 1 {
        "我的香港轻量服务器网速异常，请协助处理下"@
    } else if i == 2 {
        "轻量应用服务器实际带宽远低于购买规格，请核实"@
    } else if i == 3 {
        "香港服务器带宽好像被限制了，麻烦帮看下"@
    } else if i == 4 {
        "轻量服务器下载速度变得很慢，请帮忙排查"@
    } else if i == 5 {
        "香港轻量服务器网络受限，请帮忙解除带宽限速"@
    } else if i == 6 {
        "服务器带宽不达标，下载速度远低于30Mbps"@
    } else if i == 7 {
        "我的轻量应用服务器带宽好像被限速了，请检查"@
    } else if i == 8 {
        "香港轻量服务器带宽问题咨询"@
    } else if i == 9 {
        "轻量服务器带宽异常，下载很慢请帮忙看看"@
    } else if i == 10 {
        "香港轻量应用服务器带宽严重缩水"@
    } else {
        "轻量服务器实际网速跟购买时差距很大"@
    }
}

/// The greeting pool.
pub open spec fn spec_greeting(i: int) -> Seq<char> {
    if i == 0 {
        "您好，"@
    } else if i == 1 {
        "你好，"@
    } else if i == 2 {
        "您好！\n"@
    } else {
        ""@
    }
}

/// The text of a body before the measured speed.
pub open spec fn spec_body_prefix(i: int) -> Seq<char> {
    if i == 0 {
        "我购买的香港轻量应用服务器带宽为30Mbps，但目前实际带宽只有约"@
    } else if i == 1 {
        "我的香港轻量应用服务器最近网速很慢，刚测了一下下载速度只有"@
    } else if i == 2 {
        "我有一台香港的轻量应用服务器，配置的带宽是30Mbps，但我刚测试了下载速度只有大概"@
    } else if i == 3 {
        "我在用香港轻量应用服务器，带宽套餐是30Mbps的，但是实测下载只有"@
    } else if i == 4 {
        "我的香港轻量服务器30Mbps带宽，现在实际下载速度只有"@
    } else if i == 5 {
        "我发现我的香港轻量应用服务器带宽有问题。购买的是30Mbps，但测速只有"@
    } else if i == 6 {
        "我购买了香港区域的轻量应用服务器，标注带宽30Mbps。但是今天测试发现下载速度只有"@
    } else {
        "香港轻量应用服务器的带宽应该是30Mbps，但我实际测试下来只有"@
    }
}

/// The text of a body after the measured speed.
pub open spec fn spec_body_suffix(i: int) -> Seq<char> {
    if i == 0 {
        "Mbps左右。请帮忙检查服务器是否存在带宽限速情况，如果存在限速请帮忙解除，恢复到购买时承诺的30Mbps带宽。"@
    } else if i == 1 {
        "Mbps，我买的是30Mbps的套餐。能帮我看看是不是被限速了吗？如果是的话麻烦帮忙解除一下。"@
    } else if i == 2 {
        "Mbps，感觉被限速了。请帮忙检查一下，如果确实有限速的话帮忙解除。"@
    } else if i == 3 {
        "Mbps，速度明显不对。麻烦帮忙查一下是不是有限速，帮忙处理一下。"@
    } else if i == 4 {
        "Mbps，跟购买时承诺的差太多了。请帮忙看看是怎么回事，是否可以恢复正常带宽。"@
    } else if i == 5 {
        "Mbps。请问是被限速了吗？能否帮忙检查处理一下？"@
    } else if i == 6 {
        "Mbps，严重低于标称值。请帮我检查一下是否存在限速，如有限速请帮忙恢复。"@
    } else {
        "Mbps。请问这个是什么情况？能帮忙看看吗？"@
    }
}

/// The ending pool.
pub open spec fn spec_ending(i: int) -> Seq<char> {
    if i == 0 {
        "谢谢！"@
    } else if i == 1 {
        "感谢！"@
    } else if i == 2 {
        "谢谢"@
    } else if i == 3 {
        "麻烦了，谢谢！"@
    } else if i == 4 {
        "辛苦了，谢谢！"@
    } else if i == 5 {
        "感谢帮忙！"@
    } else if i == 6 {
        "谢谢，期待回复。"@
    } else {
        ""@
    }
}

/// The measured speed rendered for a body: rounded to a whole number, or
/// with one decimal digit, rounding half up in either style.
pub open spec fn spec_speed_str(rounded: bool, centi: u64) -> Seq<char>
    recommends
        centi + 50 <= u64::MAX,
{
    if rounded {
        spec_decimal_chars(((centi + 50) / 100) as nat)
    } else {
        let tenths = (centi % 100 + 5) / 10;
        if tenths == 10 {
            spec_decimal_chars((centi / 100 + 1) as nat) + ".0"@
        } else {
            spec_decimal_chars((centi / 100) as nat) + "."@ + spec_decimal_chars(tenths as nat)
        }
    }
}

/// A full description: greeting, body around the rendered speed, ending.
pub open spec fn spec_description(g: int, b: int, e: int, rounded: bool, centi: u64) -> Seq<char> {
    spec_greeting(g) + spec_body_prefix(b) + spec_speed_str(rounded, centi) + spec_body_suffix(b)
        + spec_ending(e)
}

/// The title at one pool position.
pub fn title_at(i: usize) -> (r: String)
    requires
        i < TITLE_COUNT,
    ensures
        r@ == spec_title(i as int),
{
    if i == 0 {
        String::from_str("香港轻量应用服务器带宽被限速，请帮忙检查解除")
    } else if i == 1 {
        String::from_str("我的香港轻量服务器网速异常，请协助处理下")
    } else if i == 2 {
        String::from_str("轻量应用服务器实际带宽远低于购买规格，请核实")
    } else if i == 3 {
        String::from_str("香港服务器带宽好像被限制了，麻烦帮看下")
    } else if i == 4 {
        String::from_str("轻量服务器下载速度变得很慢，请帮忙排查")
    } else if i == 5 {
        String::from_str("香港轻量服务器网络受限，请帮忙解除带宽限速")
    } else if i == 6 {
        String::from_str("服务器带宽不达标，下载速度远低于30Mbps")
    } else if i == 7 {
        String::from_str("我的轻量应用服务器带宽好像被限速了，请检查")
    } else if i == 8 {
        String::from_str("香港轻量服务器带宽问题咨询")
    } else if i == 9 {
        String::from_str("轻量服务器带宽异常，下载很慢请帮忙看看")
    } else if i == 10 {
        String::from_str("香港轻量应用服务器带宽严重缩水")
    } else {
        String::from_str("轻量服务器实际网速跟购买时差距很大")
    }
}

fn greeting_at(i: usize) -> (r: &'static str)
    requires
        i < GREETING_COUNT,
    ensures
        r@ == spec_greeting(i as int),
{
    if i == 0 {
        "您好，"
    } else if i == 1 {
        "你好，"
    } else if i == 2 {
        "您好！\n"
    } else {
        ""
    }
}

fn body_prefix_at(i: usize) -> (r: &'static str)
    requires
        i < BODY_COUNT,
    ensures
        r@ == spec_body_prefix(i as int),
{
    if i == 0 {
        "我购买的香港轻量应用服务器带宽为30Mbps，但目前实际带宽只有约"
    } else if i == 1 {
        "我的香港轻量应用服务器最近网速很慢，刚测了一下下载速度只有"
    } else if i == 2 {
        "我有一台香港的轻量应用服务器，配置的带宽是30Mbps，但我刚测试了下载速度只有大概"
    } else if i == 3 {
        "我在用香港轻量应用服务器，带宽套餐是30Mbps的，但是实测下载只有"
    } else if i == 4 {
        "我的香港轻量服务器30Mbps带宽，现在实际下载速度只有"
    } else if i == 5 {
        "我发现我的香港轻量应用服务器带宽有问题。购买的是30Mbps，但测速只有"
    } else if i == 6 {
        "我购买了香港区域的轻量应用服务器，标注带宽30Mbps。但是今天测试发现下载速度只有"
    } else {
        "香港轻量应用服务器的带宽应该是30Mbps，但我实际测试下来只有"
    }
}

fn body_suffix_at(i: usize) -> (r: &'static str)
    requires
        i < BODY_COUNT,
    ensures
        r@ == spec_body_suffix(i as int),
{
    if i == 0 {
        "Mbps左右。请帮忙检查服务器是否存在带宽限速情况，如果存在限速请帮忙解除，恢复到购买时承诺的30Mbps带宽。"
    } else if i == 1 {
        "Mbps，我买的是30Mbps的套餐。能帮我看看是不是被限速了吗？如果是的话麻烦帮忙解除一下。"
    } else if i == 2 {
        "Mbps，感觉被限速了。请帮忙检查一下，如果确实有限速的话帮忙解除。"
    } else if i == 3 {
        "Mbps，速度明显不对。麻烦帮忙查一下是不是有限速，帮忙处理一下。"
    } else if i == 4 {
        "Mbps，跟购买时承诺的差太多了。请帮忙看看是怎么回事，是否可以恢复正常带宽。"
    } else if i == 5 {
        "Mbps。请问是被限速了吗？能否帮忙检查处理一下？"
    } else if i == 6 {
        "Mbps，严重低于标称值。请帮我检查一下是否存在限速，如有限速请帮忙恢复。"
    } else {
        "Mbps。请问这个是什么情况？能帮忙看看吗？"
    }
}

fn ending_at(i: usize) -> (r: &'static str)
    requires
        i < ENDING_COUNT,
    ensures
        r@ == spec_ending(i as int),
{
    if i == 0 {
        "谢谢！"
    } else if i == 1 {
        "感谢！"
    } else if i == 2 {
        "谢谢"
    } else if i == 3 {
        "麻烦了，谢谢！"
    } else if i == 4 {
        "辛苦了，谢谢！"
    } else if i == 5 {
        "感谢帮忙！"
    } else if i == 6 {
        "谢谢，期待回复。"
    } else {
        ""
    }
}

/// The measured speed rendered for a body.
pub fn speed_str(rounded: bool, speed_centi_mbps: u64) -> (r: String)
    requires
        speed_centi_mbps + 50 <= u64::MAX,
    ensures
        r@ == spec_speed_str(rounded, speed_centi_mbps),
{
    if rounded {
        decimal_string((speed_centi_mbps + 50) / 100)
    } else {
        let tenths = (speed_centi_mbps % 100 + 5) / 10;
        if tenths == 10 {
            let mut out = decimal_string(speed_centi_mbps / 100 + 1);
            out.append(".0");
            out
        } else {
            let mut out = decimal_string(speed_centi_mbps / 100);
            out.append(".");
            let t = decimal_string(tenths);
            out.append(t.as_str());
            out
        }
    }
}

/// A description built from chosen pool positions around the measured speed.
pub fn build_description(
    greeting: usize,
    body: usize,
    ending: usize,
    rounded: bool,
    speed_centi_mbps: u64,
) -> (r: String)
    requires
        greeting < GREETING_COUNT,
        body < BODY_COUNT,
        ending < ENDING_COUNT,
        speed_centi_mbps + 50 <= u64::MAX,
    ensures
        r@ == spec_description(
            greeting as int,
            body as int,
            ending as int,
            rounded,
            speed_centi_mbps,
        ),
{
    let mut out = String::from_str(greeting_at(greeting));
    out.append(body_prefix_at(body));
    let speed = speed_str(rounded, speed_centi_mbps);
    out.append(speed.as_str());
    out.append(body_suffix_at(body));
    out.append(ending_at(ending));
    out
}

/// Relies on rand::thread_rng and Rng::gen_range: a random position below
/// `n`; random, so only its bound is stated.
#[verifier::external_body]
fn random_below(n: usize) -> (r: usize)
    requires
        n > 0,
    ensures
        r < n,
{
    rand::thread_rng().gen_range(0..n)
}

/// A ticket title drawn from the pool.
pub fn random_title() -> (r: String)
    ensures
        exists|i: int| 0 <= i < TITLE_COUNT && r@ == spec_title(i),
{
    let i = random_below(TITLE_COUNT);
    let r = title_at(i);
    proof {
        assert(r@ == spec_title(i as int));
    }
    r
}

/// A ticket description drawn from the pools, seeded with the measured
/// speed.
pub fn random_description(speed_centi_mbps: u64) -> (r: String)
    requires
        speed_centi_mbps + 50 <= u64::MAX,
    ensures
        exists|g: int, b: int, e: int, rounded: bool|
            0 <= g < GREETING_COUNT && 0 <= b < BODY_COUNT && 0 <= e < ENDING_COUNT && r@
                == spec_description(g, b, e, rounded, speed_centi_mbps),
{
    let g = random_below(GREETING_COUNT);
    let b = random_below(BODY_COUNT);
    let e = random_below(ENDING_COUNT);
    let rounded = random_below(2) == 0;
    let r = build_description(g, b, e, rounded, speed_centi_mbps);
    proof {
        assert(r@ == spec_description(g as int, b as int, e as int, rounded, speed_centi_mbps));
    }
    r
}

} // verus!
