//! What the options of a radio mean.

use vstd::prelude::*;

use crate::change::{ChangeOperation, ConfigDomain, ObjectOwnership, RiskLevel};
use crate::firewall_uci::UciSectionView;
use crate::parse::{u16_value, u8_value};
use crate::wireless_model::{
    WirelessBand, WirelessChannel, WirelessChannelWidth, WirelessMutationPlanView, WirelessObjectView,
    WirelessPlannedChangeView,
};
use crate::wireless_openwrt::{
    changes_match, family_fits, htmode_of, plan_matches, radio_from, radio_value, OpenWrtWirelessBandEncoding,
    OpenWrtWirelessHtModeFamily,
};

verus! {

/// The word of a family of modes.
pub open spec fn mode_family_word(f: OpenWrtWirelessHtModeFamily) -> Seq<char> {
    match f {
        OpenWrtWirelessHtModeFamily::Ht => "HT"@,
        OpenWrtWirelessHtModeFamily::Vht => "VHT"@,
        OpenWrtWirelessHtModeFamily::He => "HE"@,
        OpenWrtWirelessHtModeFamily::Eht => "EHT"@,
    }
}

/// Whether a text is the width of a channel.
pub open spec fn is_width(s: Seq<char>, w: WirelessChannelWidth) -> bool {
    match w {
        WirelessChannelWidth::Auto => false,
        WirelessChannelWidth::Mhz20 => s == "20"@,
        WirelessChannelWidth::Mhz40 => s == "40"@ || s == "40+"@ || s == "40-"@,
        WirelessChannelWidth::Mhz80 => s == "80"@,
        WirelessChannelWidth::Mhz160 => s == "160"@,
    }
}

/// Whether a mode is made of the word of a family and the width of a channel.
pub open spec fn is_mode(s: Seq<char>, w: WirelessChannelWidth, f: OpenWrtWirelessHtModeFamily) -> bool {
    exists|x: Seq<char>| #[trigger] is_width(x, w) && s == mode_family_word(f) + x
}

proof fn lemma_mode(s: Seq<char>, w: WirelessChannelWidth, f: OpenWrtWirelessHtModeFamily)
    requires
        htmode_of(s) == Some((w, f)),
    ensures
        is_mode(s, w, f),
{
    reveal_strlit("HT");
    reveal_strlit("VHT");
    reveal_strlit("HE");
    reveal_strlit("EHT");
    assert("HT"@.len() == 2 && "VHT"@.len() == 3 && "HE"@.len() == 2 && "EHT"@.len() == 3);
    let n = mode_family_word(f).len() as int;
    let x = s.skip(n);
    assert(is_width(x, w));
    assert(s =~= mode_family_word(f) + x);
}

/// A radio is what its options say. Its band is under one of two options, its mode is a family and a width, and what is
/// not given is left to the radio.
pub proof fn law_radio_is_what_its_options_say(s: UciSectionView)
    ensures
        radio_value(s) matches Some(d) ==> {
            &&& d.radio.id == s.selector
            &&& d.radio.ownership == ObjectOwnership::PlatformNative
            &&& s.first("type"@) == Some("mac80211"@)
            &&& d.radio.enabled <==> s.first("disabled"@) is None || s.first("disabled"@) == Some("0"@)
            &&& !d.radio.enabled <==> s.first("disabled"@) == Some("1"@)
            &&& match d.band_encoding {
                OpenWrtWirelessBandEncoding::Band => s.first("hwmode"@) is None && s.first("band"@) == Some(
                    d.band_value,
                ) && d.band_value == (match d.radio.band {
                    WirelessBand::Ghz2 => "2g"@,
                    WirelessBand::Ghz5 => "5g"@,
                    WirelessBand::Ghz6 => "6g"@,
                }),
                OpenWrtWirelessBandEncoding::HwMode => s.first("band"@) is None && s.first("hwmode"@) == Some(
                    d.band_value,
                ) && (d.radio.band == WirelessBand::Ghz2 && d.band_value == "11g"@ || d.radio.band
                    == WirelessBand::Ghz5 && d.band_value == "11a"@),
            }
            &&& match d.radio.channel {
                WirelessChannel::Auto => s.first("channel"@) is None || s.first("channel"@) == Some("auto"@),
                WirelessChannel::Fixed { channel } => s.first("channel"@) is Some && u16_value(
                    s.first("channel"@)->Some_0,
                ) == Some(channel),
            }
            &&& d.htmode == s.first("htmode"@)
            &&& match s.first("htmode"@) {
                None => d.radio.width == WirelessChannelWidth::Auto && d.htmode_family is None,
                Some(m) => d.htmode_family is Some && is_mode(m, d.radio.width, d.htmode_family->Some_0),
            }
            &&& d.radio.country == s.first("country"@)
            &&& match s.first("txpower"@) {
                None => d.radio.tx_power_dbm is None,
                Some(v) => d.radio.tx_power_dbm is Some && u8_value(v) == d.radio.tx_power_dbm,
            }
        },
{
    if let Some(d) = radio_value(s) {
        reveal_strlit("0");
        reveal_strlit("1");
        assert("0"@[0] == '0' && "1"@[0] == '1');
        if let Some(m) = s.first("htmode"@) {
            lemma_mode(m, d.radio.width, d.htmode_family->Some_0);
        }
    }
}

/// A family of modes fits a band and a width: the oldest is for narrow channels below the highest band, the next for the
/// middle band, and the others for all.
pub proof fn law_modes_fit_bands_and_widths(f: OpenWrtWirelessHtModeFamily, b: WirelessBand, w: WirelessChannelWidth)
    ensures
        w == WirelessChannelWidth::Auto ==> family_fits(f, b, w),
        f == OpenWrtWirelessHtModeFamily::He || f == OpenWrtWirelessHtModeFamily::Eht ==> family_fits(f, b, w),
        f == OpenWrtWirelessHtModeFamily::Ht && b == WirelessBand::Ghz6 && w != WirelessChannelWidth::Auto
            ==> !family_fits(f, b, w),
        f == OpenWrtWirelessHtModeFamily::Ht && (w == WirelessChannelWidth::Mhz80 || w
            == WirelessChannelWidth::Mhz160) ==> !family_fits(f, b, w),
        f == OpenWrtWirelessHtModeFamily::Ht && b != WirelessBand::Ghz6 && (w == WirelessChannelWidth::Mhz20 || w
            == WirelessChannelWidth::Mhz40) ==> family_fits(f, b, w),
        f == OpenWrtWirelessHtModeFamily::Vht && w != WirelessChannelWidth::Auto ==> (family_fits(f, b, w) <==> b
            == WirelessBand::Ghz5),
{
}

proof fn lemma_radio_at(objects: Seq<WirelessObjectView>, id: Seq<char>, i: int)
    requires
        0 <= i <= objects.len(),
    ensures
        ({
            let k = radio_from(objects, id, i);
            &&& i <= k <= objects.len()
            &&& k < objects.len() ==> objects[k].id() == id
            &&& forall|j: int| i <= j < k ==> (#[trigger] objects[j]).id() != id
        }),
    decreases objects.len() - i,
{
    if i < objects.len() && objects[i].id() != id {
        lemma_radio_at(objects, id, i + 1);
    }
}

/// Whether a change of a radio fits what is there: it updates exactly what is there, the two sides are one radio, and
/// its digests are those of its sides.
pub open spec fn fits_wireless(c: WirelessPlannedChangeView, objects: Seq<WirelessObjectView>) -> bool {
    &&& objects.contains(c.before)
    &&& c.before.id() == c.after.id()
    &&& c.before_checks.valid && c.after_checks.valid
    &&& c.before_checks.digest is Some && c.after_checks.digest is Some
    &&& c.diff.before_digest == c.before_checks.digest
    &&& c.diff.after_digest == c.after_checks.digest
    &&& c.diff.object.expected_version == c.before_checks.digest
    &&& c.diff.object.domain == ConfigDomain::Wireless
    &&& c.diff.object.kind == "radio"@
    &&& c.diff.object.id == c.before.id()
    &&& c.diff.object.ownership == ObjectOwnership::PlatformNative
    &&& c.diff.operation == ChangeOperation::Update
}

proof fn lemma_fits(changes: Seq<WirelessPlannedChangeView>, objects: Seq<WirelessObjectView>, i: int, k: int)
    requires
        0 <= i <= k < changes.len(),
        changes_match(changes, objects, i) is Ok,
    ensures
        fits_wireless(changes[k], objects),
        !crate::wireless_openwrt::touched_before(changes, k),
    decreases k - i,
{
    if i < k {
        lemma_fits(changes, objects, i + 1, k);
    } else {
        lemma_radio_at(objects, changes[k].before.id(), 0);
    }
}

/// A plan for radios is taken only where it is fresh and of the highest care: each change fits what is there, and no two
/// changes are about one radio.
pub proof fn law_wireless_plan_is_fresh(
    plan: WirelessMutationPlanView,
    objects: Seq<WirelessObjectView>,
    k: int,
    l: int,
)
    requires
        plan_matches(plan, objects) is Ok,
    ensures
        plan.risk == RiskLevel::R3,
        plan.changes.len() > 0,
        0 <= k < plan.changes.len() ==> fits_wireless(plan.changes[k], objects),
        0 <= l < k < plan.changes.len() ==> plan.changes[l].before.id() != plan.changes[k].before.id(),
{
    if 0 <= k < plan.changes.len() {
        lemma_fits(plan.changes, objects, 0, k);
    }
}

} // verus!
