//! The power supplies that Linux lists under `/sys/class/power_supply`.
use vstd::prelude::*;

use crate::backend;
use crate::backend::PauseMode;
use crate::config;
use crate::text;

verus! {

/// One power supply: its name, and the text of its `online` and `capacity` files where
/// they can be read.
#[derive(Debug)]
pub struct PowerSupply {
    pub name: String,
    pub online: Option<String>,
    pub capacity: Option<String>,
}

/// A [`PowerSupply`] as plain text.
pub struct SupplyText {
    pub name: Seq<char>,
    pub online: Option<Seq<char>>,
    pub capacity: Option<Seq<char>>,
}

impl View for PowerSupply {
    type V = SupplyText;

    open spec fn view(&self) -> SupplyText {
        SupplyText {
            name: self.name@,
            online: config::text_view(self.online),
            capacity: config::text_view(self.capacity),
        }
    }
}

/// The supplies as plain text, in order.
pub open spec fn supply_texts(supplies: Seq<PowerSupply>) -> Seq<SupplyText> {
    supplies.map_values(|s: PowerSupply| s@)
}

/// A decimal digit.
pub open spec fn is_digit(c: char) -> bool {
    48 <= c as int <= 57
}

/// The number that decimal digits stand for.
pub open spec fn digits_value(s: Seq<char>) -> nat
    decreases s.len(),
{
    if s.len() == 0 {
        0
    } else {
        10 * digits_value(s.drop_last()) + (s.last() as int - 48) as nat
    }
}

/// The digits of an unsigned number, which may have a plus sign before them.
pub open spec fn unsigned_digits(s: Seq<char>) -> Seq<char> {
    if s.len() > 0 && s[0] == '+' {
        s.skip(1)
    } else {
        s
    }
}

/// The byte that a text stands for, blanks at its ends aside.
pub open spec fn u8_of_text(s: Seq<char>) -> Option<u8> {
    let d = unsigned_digits(text::trimmed(s));
    if d.len() > 0 && (forall|i: int| 0 <= i < d.len() ==> is_digit(#[trigger] d[i]))
        && digits_value(d) <= 255 {
        Some(digits_value(d) as u8)
    } else {
        None
    }
}

/// More digits never make a smaller number.
proof fn lemma_digits_grow(s: Seq<char>, n: int)
    requires
        0 <= n <= s.len(),
        forall|i: int| 0 <= i < s.len() ==> is_digit(#[trigger] s[i]),
    ensures
        digits_value(s.take(n)) <= digits_value(s),
    decreases s.len() - n,
{
    if n == s.len() {
        assert(s.take(n) =~= s);
    } else {
        assert(s.take(n + 1).drop_last() =~= s.take(n));
        assert(is_digit(s[n]));
        lemma_digits_grow(s, n + 1);
    }
}

/// Reads the number in a file of `/sys`.
pub fn read_sysfs_u8(contents: &str) -> (r: Option<u8>)
    ensures
        r == u8_of_text(contents@),
{
    let trimmed = text::trim(contents);
    let v = text::chars_of(trimmed.as_str());
    let from: usize = if v.len() > 0 && v[0] == '+' {
        1
    } else {
        0
    };
    let ghost d = unsigned_digits(trimmed@);
    assert(d =~= v@.skip(from as int));
    if v.len() == from {
        return None;
    }
    let mut value: u32 = 0;
    let mut i: usize = from;
    assert(d.take(0) =~= Seq::<char>::empty());
    while i < v.len()
        invariant
            from <= i <= v@.len(),
            d == v@.skip(from as int),
            d == unsigned_digits(text::trimmed(contents@)),
            value == digits_value(d.take(i - from)),
            value <= 255,
            forall|k: int| 0 <= k < i - from ==> is_digit(#[trigger] d[k]),
        decreases v@.len() - i,
    {
        let c = v[i];
        assert(d[i - from] == c);
        if c < '0' || c > '9' {
            assert(!is_digit(d[i - from]));
            return None;
        }
        assert(d.take(i - from + 1).drop_last() =~= d.take(i - from));
        value = value * 10 + (c as u32 - 48);
        i = i + 1;
        if value > 255 {
            proof {
                if forall|k: int| 0 <= k < d.len() ==> is_digit(#[trigger] d[k]) {
                    lemma_digits_grow(d, i - from);
                }
            }
            return None;
        }
    }
    assert(d.take(i - from) =~= d);
    Some(value as u8)
}

/// A supply that feeds from the mains.
pub open spec fn is_mains(name: Seq<char>) -> bool {
    text::has_prefix(name, "AC"@) || text::has_prefix(name, "ADP"@)
}

/// A supply that feeds from the mains and does so now.
pub open spec fn is_live_mains(s: SupplyText) -> bool {
    is_mains(s.name) && s.online is Some && u8_of_text(s.online->0) == Some(1u8)
}

/// The system runs on battery: it has mains adapters, and none of them is online.
pub open spec fn runs_on_battery(supplies: Seq<SupplyText>) -> bool {
    &&& exists|i: int| 0 <= i < supplies.len() && is_mains((#[trigger] supplies[i]).name)
    &&& forall|i: int| 0 <= i < supplies.len() ==> !is_live_mains(#[trigger] supplies[i])
}

/// Whether the system runs on battery. A system without a mains adapter is taken to be a
/// desktop.
pub fn on_battery(supplies: &Vec<PowerSupply>) -> (r: bool)
    ensures
        r == runs_on_battery(supply_texts(supplies@)),
{
    let ghost texts = supply_texts(supplies@);
    let mut found_ac: bool = false;
    let mut i: usize = 0;
    while i < supplies.len()
        invariant
            texts == supply_texts(supplies@),
            i <= supplies@.len(),
            found_ac == exists|k: int| 0 <= k < i && is_mains((#[trigger] texts[k]).name),
            forall|k: int| 0 <= k < i ==> !is_live_mains(#[trigger] texts[k]),
        decreases supplies@.len() - i,
    {
        let s = &supplies[i];
        assert(texts[i as int] == s@);
        if text::starts_with(s.name.as_str(), "AC") || text::starts_with(s.name.as_str(), "ADP") {
            found_ac = true;
            match &s.online {
                Some(online) => {
                    if read_sysfs_u8(online.as_str()) == Some(1u8) {
                        assert(is_live_mains(texts[i as int]));
                        return false;
                    }
                },
                None => {},
            }
        }
        i = i + 1;
    }
    found_ac
}

/// A battery with a known charge.
pub open spec fn is_charged(s: SupplyText) -> bool {
    text::has_prefix(s.name, "BAT"@) && s.capacity is Some && u8_of_text(s.capacity->0) is Some
}

/// The charge of the first battery with a known one, at most 100.
pub open spec fn charge(supplies: Seq<SupplyText>) -> Option<u8>
    decreases supplies.len(),
{
    if supplies.len() == 0 {
        None
    } else if is_charged(supplies[0]) {
        let pct = u8_of_text(supplies[0].capacity->0)->0;
        Some(
            if pct < 100 {
                pct
            } else {
                100
            },
        )
    } else {
        charge(supplies.skip(1))
    }
}

/// The charge of the first battery with a known one.
pub fn battery_percent(supplies: &Vec<PowerSupply>) -> (r: Option<u8>)
    ensures
        r == charge(supply_texts(supplies@)),
{
    let ghost texts = supply_texts(supplies@);
    let mut i: usize = 0;
    assert(texts.skip(0) =~= texts);
    while i < supplies.len()
        invariant
            texts == supply_texts(supplies@),
            i <= supplies@.len(),
            charge(texts) == charge(texts.skip(i as int)),
        decreases supplies@.len() - i,
    {
        let s = &supplies[i];
        assert(texts.skip(i as int)[0] == s@);
        assert(texts.skip(i as int).skip(1) =~= texts.skip(i + 1));
        if text::starts_with(s.name.as_str(), "BAT") {
            match &s.capacity {
                Some(capacity) => match read_sysfs_u8(capacity.as_str()) {
                    Some(pct) => {
                        return Some(
                            if pct < 100 {
                                pct
                            } else {
                                100
                            },
                        );
                    },
                    None => {},
                },
                None => {},
            }
        }
        i = i + 1;
    }
    None
}

/// Whether playback pauses, given the power supplies of the system.
pub fn should_pause(mode: &PauseMode, supplies: &Vec<PowerSupply>) -> (r: bool)
    ensures
        r == backend::pauses(
            *mode,
            runs_on_battery(supply_texts(supplies@)),
            charge(supply_texts(supplies@)),
        ),
{
    match mode {
        PauseMode::Never => false,
        PauseMode::OnBattery => on_battery(supplies),
        PauseMode::BelowPercent(_) => backend::pause_now(
            mode,
            on_battery(supplies),
            battery_percent(supplies),
        ),
    }
}

/// The digits of a number read back as that number.
proof fn digits_of_decimal(n: nat)
    ensures
        digits_value(text::decimal(n)) == n,
        text::decimal(n).len() > 0,
        forall|i: int|
            0 <= i < text::decimal(n).len() ==> is_digit(#[trigger] text::decimal(n)[i]),
    decreases n,
{
    let d = text::decimal(n);
    if n < 10 {
        assert(d.drop_last() =~= Seq::empty());
        assert(digits_value(d.drop_last()) == 0);
    } else {
        digits_of_decimal(n / 10);
        assert(d.drop_last() =~= text::decimal(n / 10));
        assert forall|i: int| 0 <= i < d.len() implies is_digit(#[trigger] d[i]) by {
            if i < d.len() - 1 {
                assert(d[i] == text::decimal(n / 10)[i]);
            }
        }
    }
}

/// A number is written with its digits, without leading zeros, and reads back as itself.
pub proof fn decimal_law(n: nat)
    ensures
        digits_value(text::decimal(n)) == n,
        forall|i: int|
            0 <= i < text::decimal(n).len() ==> '0' <= #[trigger] text::decimal(n)[i] <= '9',
        text::decimal(n).len() > 0,
        n > 0 ==> text::decimal(n)[0] != '0',
    decreases n,
{
    digits_of_decimal(n);
    if n >= 10 {
        decimal_law(n / 10);
        assert(text::decimal(n)[0] == text::decimal(n / 10)[0]);
    }
    assert forall|i: int| 0 <= i < text::decimal(n).len() implies '0' <= #[trigger] text::decimal(
        n,
    )[i] <= '9' by {
        assert(is_digit(text::decimal(n)[i]));
    }
}

/// A zero before the digits of a number changes nothing.
pub proof fn leading_zero(d: Seq<char>)
    ensures
        digits_value(seq!['0'] + d) == digits_value(d),
    decreases d.len(),
{
    let zero = seq!['0'] + d;
    if d.len() == 0 {
        assert(zero.drop_last() =~= Seq::empty());
        assert(digits_value(zero.drop_last()) == 0);
    } else {
        leading_zero(d.drop_last());
        assert(zero.drop_last() =~= seq!['0'] + d.drop_last());
    }
}

/// What a file of `/sys` tells. A number of at most 255 is read, also behind a plus sign or a
/// zero and between blanks; a larger one is not, nor is an empty file, nor one with anything
/// but digits in it.
pub proof fn sysfs_law(n: nat, before: Seq<char>, behind: Seq<char>, other: Seq<char>, i: int)
    requires
        text::all_blank(before),
        text::all_blank(behind),
        0 <= i < other.len(),
        !('0' <= other[i] <= '9'),
        !text::is_blank(other[0]) && !text::is_blank(other.last()),
        i == 0 ==> other[0] != '+',
    ensures
        n <= 255 ==> u8_of_text(before + text::decimal(n) + behind) == Some(n as u8),
        n <= 255 ==> u8_of_text(before + (seq!['+'] + text::decimal(n)) + behind) == Some(n as u8),
        n > 255 ==> u8_of_text(before + text::decimal(n) + behind) is None,
        u8_of_text(before + behind) is None,
        u8_of_text(before + other + behind) is None,
        n <= 255 ==> u8_of_text(before + (seq!['0'] + text::decimal(n)) + behind) == Some(n as u8),
{
    let d = text::decimal(n);
    digits_of_decimal(n);
    assert(is_digit(d[0]) && is_digit(d[d.len() - 1]));
    assert(!text::is_blank(d[0]) && !text::is_blank(d.last()));
    text::trim_law(before, d, behind);
    assert(d[0] != '+');
    let plus = seq!['+'] + d;
    assert(plus.last() == d.last());
    text::trim_law(before, plus, behind);
    assert(plus.skip(1) =~= d);
    assert(before + Seq::<char>::empty() + behind =~= before + behind);
    text::trim_law(before, Seq::empty(), behind);
    text::trim_law(before, other, behind);
    let zero = seq!['0'] + d;
    assert(zero.last() == d.last());
    text::trim_law(before, zero, behind);
    assert forall|k: int| 0 <= k < zero.len() implies is_digit(#[trigger] zero[k]) by {
        if k > 0 {
            assert(is_digit(d[k - 1]));
        }
    }
    leading_zero(d);
    let digits = unsigned_digits(other);
    if other[0] == '+' {
        assert(digits[i - 1] == other[i]);
        assert(!is_digit(digits[i - 1]));
    } else {
        assert(!is_digit(digits[i]));
    }
}

/// When the system runs on battery. An adapter, by its name `AC…` or `ADP…`, whose file says
/// 1 feeds the system, whatever else is there; without any adapter the system is taken to be
/// fed; with adapters of which none says 1 it runs on battery. Other supplies play no part.
pub proof fn on_battery_law(supplies: Seq<SupplyText>, i: int, other: SupplyText)
    ensures
        0 <= i < supplies.len() && (text::has_prefix(supplies[i].name, "AC"@) || text::has_prefix(
            supplies[i].name,
            "ADP"@,
        )) && supplies[i].online is Some && u8_of_text(supplies[i].online->0) == Some(1u8)
            ==> !runs_on_battery(supplies),
        (forall|k: int|
            0 <= k < supplies.len() ==> !text::has_prefix((#[trigger] supplies[k]).name, "AC"@)
                && !text::has_prefix(supplies[k].name, "ADP"@)) ==> !runs_on_battery(supplies),
        0 <= i < supplies.len() && (text::has_prefix(supplies[i].name, "AC"@) || text::has_prefix(
            supplies[i].name,
            "ADP"@,
        )) && (forall|k: int|
            0 <= k < supplies.len() && (text::has_prefix((#[trigger] supplies[k]).name, "AC"@)
                || text::has_prefix(supplies[k].name, "ADP"@)) ==> supplies[k].online is None
                || u8_of_text(supplies[k].online->0) != Some(1u8)) ==> runs_on_battery(supplies),
        !text::has_prefix(other.name, "AC"@) && !text::has_prefix(other.name, "ADP"@)
            ==> runs_on_battery(supplies.push(other)) == runs_on_battery(supplies),
{
    if 0 <= i < supplies.len() && is_live_mains(supplies[i]) {
        assert(!runs_on_battery(supplies));
    }
    if 0 <= i < supplies.len() && is_mains(supplies[i].name) {
        assert(is_mains(supplies[i].name));
    }
    if !text::has_prefix(other.name, "AC"@) && !text::has_prefix(other.name, "ADP"@) {
        let more = supplies.push(other);
        assert(forall|k: int| 0 <= k < supplies.len() ==> more[k] == supplies[k]);
        assert(more[supplies.len() as int] == other);
        if runs_on_battery(supplies) {
            let k = choose|k: int|
                0 <= k < supplies.len() && is_mains((#[trigger] supplies[k]).name);
            assert(is_mains(more[k].name));
        }
        if runs_on_battery(more) {
            let k = choose|k: int| 0 <= k < more.len() && is_mains((#[trigger] more[k]).name);
            assert(is_mains(supplies[k].name));
            assert forall|j: int| 0 <= j < supplies.len() implies !is_live_mains(
                #[trigger] supplies[j],
            ) by {
                assert(!is_live_mains(more[j]));
            }
        }
    }
}

/// Which charge counts: that of the first battery, by its name `BAT…`, whose file can be
/// read, and 100 where the file says more. Without such a battery there is none.
pub proof fn charge_law(supplies: Seq<SupplyText>)
    ensures
        match charge(supplies) {
            Some(percent) => exists|i: int|
                {
                    &&& 0 <= i < supplies.len()
                    &&& text::has_prefix((#[trigger] supplies[i]).name, "BAT"@)
                    &&& supplies[i].capacity is Some
                    &&& u8_of_text(supplies[i].capacity->0) is Some
                    &&& u8_of_text(supplies[i].capacity->0)->0 <= 100 ==> percent == u8_of_text(
                        supplies[i].capacity->0,
                    )->0
                    &&& u8_of_text(supplies[i].capacity->0)->0 > 100 ==> percent == 100
                    &&& forall|j: int|
                        0 <= j < i ==> !text::has_prefix((#[trigger] supplies[j]).name, "BAT"@)
                            || supplies[j].capacity is None || u8_of_text(
                            supplies[j].capacity->0,
                        ) is None
                },
            None => forall|j: int|
                0 <= j < supplies.len() ==> !text::has_prefix(
                    (#[trigger] supplies[j]).name,
                    "BAT"@,
                ) || supplies[j].capacity is None || u8_of_text(supplies[j].capacity->0) is None,
        },
    decreases supplies.len(),
{
    if supplies.len() > 0 {
        if is_charged(supplies[0]) {
            assert(text::has_prefix(supplies[0].name, "BAT"@));
        } else {
            let rest = supplies.skip(1);
            charge_law(rest);
            assert(forall|j: int| 0 < j < supplies.len() ==> #[trigger] supplies[j] == rest[j - 1]);
            match charge(rest) {
                Some(percent) => {
                    let i = choose|i: int|
                        {
                            &&& 0 <= i < rest.len()
                            &&& is_charged(#[trigger] rest[i])
                            &&& u8_of_text(rest[i].capacity->0)->0 <= 100 ==> percent == u8_of_text(
                                rest[i].capacity->0,
                            )->0
                            &&& u8_of_text(rest[i].capacity->0)->0 > 100 ==> percent == 100
                            &&& forall|j: int|
                                0 <= j < i ==> !is_charged(#[trigger] rest[j])
                        };
                    assert(supplies[i + 1] == rest[i]);
                    assert forall|j: int| 0 <= j < i + 1 implies !is_charged(
                        #[trigger] supplies[j],
                    ) by {
                        if j > 0 {
                            assert(!is_charged(rest[j - 1]));
                        }
                    }
                },
                None => {},
            }
        }
    }
}

/// The supplies are read one by one, in order, each file as it stands.
pub proof fn supply_texts_law(supplies: Seq<PowerSupply>, i: int)
    requires
        0 <= i < supplies.len(),
    ensures
        supply_texts(supplies).len() == supplies.len(),
        ({
            let s = supply_texts(supplies)[i];
            &&& s.name == supplies[i].name@
            &&& s.online is Some <==> supplies[i].online is Some
            &&& s.capacity is Some <==> supplies[i].capacity is Some
            &&& supplies[i].online matches Some(text) ==> s.online == Some(text@)
            &&& supplies[i].capacity matches Some(text) ==> s.capacity == Some(text@)
        }),
{
}

} // verus!
