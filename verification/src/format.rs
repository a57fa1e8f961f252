//! Format records offered by the external tool for a source URL, and the
//! capability predicates the selection logic is built on.

use vstd::prelude::*;

use crate::strutil::{char_of_digit, dec_str, opt_str_eq};
use vstd::string::StringExecFns;

verus! {

/// One selectable encoding/container variant. Immutable once parsed; the
/// predicates below are pure functions of these fields. The average
/// bitrate is kept in whole kbit/s.
pub struct Format {
    pub format_id: String,
    pub resolution: Option<String>,
    pub ext: String,
    pub vcodec: Option<String>,
    pub acodec: Option<String>,
    pub filesize: Option<u64>,
    pub filesize_approx: Option<u64>,
    pub tbr: Option<u64>,
    pub width: Option<u32>,
    pub height: Option<u32>,
}

/// A format carries video when a video codec is present and is not the
/// tool's `"none"` sentinel.
pub open spec fn spec_is_video(f: Format) -> bool {
    f.vcodec matches Some(v) && v@ != "none"@
}

/// A format is audio-only when it carries no video but does carry an audio
/// codec other than the `"none"` sentinel.
pub open spec fn spec_is_audio_only(f: Format) -> bool {
    !spec_is_video(f) && (f.acodec matches Some(a) && a@ != "none"@)
}

/// The video-capable formats of a fetched list, in order: those that carry
/// video and report a height.
pub open spec fn spec_video_formats(fs: Seq<Format>) -> Seq<Format> {
    fs.filter(|f: Format| spec_is_video(f) && f.height is Some)
}

pub fn clone_opt_string(o: &Option<String>) -> (r: Option<String>)
    ensures
        r == *o,
{
    match o {
        Some(s) => Some(s.clone()),
        None => None,
    }
}

impl Clone for Format {
    fn clone(&self) -> (r: Self)
        ensures
            r == *self,
    {
        Format {
            format_id: self.format_id.clone(),
            resolution: clone_opt_string(&self.resolution),
            ext: self.ext.clone(),
            vcodec: clone_opt_string(&self.vcodec),
            acodec: clone_opt_string(&self.acodec),
            filesize: self.filesize,
            filesize_approx: self.filesize_approx,
            tbr: self.tbr,
            width: self.width,
            height: self.height,
        }
    }
}

impl Format {
    pub fn is_video(&self) -> (r: bool)
        ensures
            r == spec_is_video(*self),
    {
        match &self.vcodec {
            Some(v) => !opt_str_eq(&self.vcodec, "none"),
            None => false,
        }
    }

    pub fn is_audio_only(&self) -> (r: bool)
        ensures
            r == spec_is_audio_only(*self),
    {
        !self.is_video() && match &self.acodec {
            Some(a) => !opt_str_eq(&self.acodec, "none"),
            None => false,
        }
    }
}

/// The resolution text shown for a format: `WxH` when both dimensions are
/// reported, else the tool's own resolution string, else `audio`.
pub open spec fn spec_display_resolution(f: Format) -> Seq<char> {
    if f.width is Some && f.height is Some {
        dec_str(f.width->0 as nat) + "x"@ + dec_str(f.height->0 as nat)
    } else if f.resolution is Some {
        f.resolution->0@
    } else {
        "audio"@
    }
}

/// The bitrate text shown for a format: the whole kbit/s figure, or a
/// placeholder when none is reported.
pub open spec fn spec_display_bitrate(f: Format) -> Seq<char> {
    match f.tbr {
        Some(b) => dec_str(b as nat) + " kbps"@,
        None => "~"@,
    }
}

/// `b` scaled by `unit` with two decimal places, as hundredths: the whole
/// part times one hundred plus the truncated fraction.
pub open spec fn spec_hundredths(b: nat, unit: nat) -> int {
    (b as int / unit as int) * 100 + ((b as int % unit as int) * 100) / (unit as int)
}

/// The two-decimal rendering of `b` in units of `unit`.
pub open spec fn spec_scaled_2dp(b: nat, unit: nat) -> Seq<char> {
    let q = spec_hundredths(b, unit);
    dec_str((q / 100) as nat).push('.').push(char_of_digit((q / 10) % 10)).push(
        char_of_digit(q % 10),
    )
}

/// The size text shown for a format: the exact or approximate byte count,
/// scaled to the largest binary unit it reaches, with two decimals; bare
/// bytes below one KiB; a placeholder when no size is reported.
pub open spec fn spec_display_size(f: Format) -> Seq<char> {
    let sz = if f.filesize is Some {
        f.filesize
    } else {
        f.filesize_approx
    };
    match sz {
        Some(b) => if b >= 0x40000000 {
            spec_scaled_2dp(b as nat, 0x40000000) + " GiB"@
        } else if b >= 0x100000 {
            spec_scaled_2dp(b as nat, 0x100000) + " MiB"@
        } else if b >= 1024 {
            spec_scaled_2dp(b as nat, 1024) + " KiB"@
        } else {
            dec_str(b as nat) + " B"@
        },
        None => "~"@,
    }
}

/// Renders `b` in units of `unit` with two decimal places.
fn scaled_2dp(b: u64, unit: u64) -> (r: String)
    requires
        1024 <= unit <= 0x40000000,
    ensures
        r@ == spec_scaled_2dp(b as nat, unit as nat),
{
    let whole = b / unit;
    proof {
        assert((b % unit) * 100 <= 0x40000000 * 100) by (nonlinear_arith)
            requires
                b % unit < unit <= 0x40000000,
        ;
    }
    let frac = ((b % unit) * 100) / unit;
    proof {
        assert(((b as int % unit as int) * 100) / (unit as int) < 100) by (nonlinear_arith)
            requires
                unit >= 1024,
        ;
    }
    let mut s = crate::strutil::u64_to_string(whole);
    crate::strutil::push_char(&mut s, '.');
    crate::strutil::push_char(&mut s, crate::strutil::digit_char(frac / 10));
    crate::strutil::push_char(&mut s, crate::strutil::digit_char(frac % 10));
    proof {
        let q = spec_hundredths(b as nat, unit as nat);
        assert(q / 100 == whole as int) by (nonlinear_arith)
            requires
                q == (whole as int) * 100 + frac,
                0 <= frac < 100,
                whole >= 0,
        ;
        assert((q / 10) % 10 == frac as int / 10) by (nonlinear_arith)
            requires
                q == (whole as int) * 100 + frac,
                0 <= frac < 100,
                whole >= 0,
        ;
        assert(q % 10 == frac as int % 10) by (nonlinear_arith)
            requires
                q == (whole as int) * 100 + frac,
                0 <= frac < 100,
                whole >= 0,
        ;
    }
    s
}

impl Format {
    pub fn display_resolution(&self) -> (r: String)
        ensures
            r@ == spec_display_resolution(*self),
    {
        match (&self.width, &self.height) {
            (Some(w), Some(h)) => {
                let mut s = crate::strutil::u64_to_string(*w as u64);
                s.append("x");
                let hs = crate::strutil::u64_to_string(*h as u64);
                s.append(hs.as_str());
                s
            },
            _ => match &self.resolution {
                Some(res) => res.clone(),
                None => String::from_str("audio"),
            },
        }
    }

    pub fn display_bitrate(&self) -> (r: String)
        ensures
            r@ == spec_display_bitrate(*self),
    {
        match &self.tbr {
            Some(b) => {
                let mut s = crate::strutil::u64_to_string(*b);
                s.append(" kbps");
                s
            },
            None => String::from_str("~"),
        }
    }

    pub fn display_size(&self) -> (r: String)
        ensures
            r@ == spec_display_size(*self),
    {
        let sz = match &self.filesize {
            Some(b) => Some(*b),
            None => self.filesize_approx,
        };
        match sz {
            Some(b) => {
                if b >= 0x40000000 {
                    let mut s = scaled_2dp(b, 0x40000000);
                    s.append(" GiB");
                    s
                } else if b >= 0x100000 {
                    let mut s = scaled_2dp(b, 0x100000);
                    s.append(" MiB");
                    s
                } else if b >= 1024 {
                    let mut s = scaled_2dp(b, 1024);
                    s.append(" KiB");
                    s
                } else {
                    let mut s = crate::strutil::u64_to_string(b);
                    s.append(" B");
                    s
                }
            },
            None => String::from_str("~"),
        }
    }
}

/// Keeps the video-capable entries of a fetched format list: the metadata
/// driver offers only those for selection.
pub fn filter_video_formats(formats: &Vec<Format>) -> (r: Vec<Format>)
    ensures
        r@ == spec_video_formats(formats@),
{
    let mut r: Vec<Format> = Vec::new();
    let mut i: usize = 0;
    while i < formats.len()
        invariant
            0 <= i <= formats@.len(),
            r@ == formats@.take(i as int).filter(
                |f: Format| spec_is_video(f) && f.height is Some,
            ),
        decreases formats@.len() - i,
    {
        let f = &formats[i];
        proof {
            reveal_with_fuel(Seq::<Format>::filter, 2);
            assert(formats@.take(i + 1).drop_last() =~= formats@.take(i as int));
            assert(formats@.take(i + 1).last() == formats@[i as int]);
        }
        if f.is_video() && f.height.is_some() {
            r.push(f.clone());
        }
        i += 1;
    }
    proof {
        assert(formats@.take(formats@.len() as int) =~= formats@);
    }
    r
}

/// State of the format-selection popup: the candidate list with a cursor,
/// a video/audio-only toggle, and an apply-to-all flag.
pub struct FormatPopupState {
    pub job_index: usize,
    pub formats: Vec<Format>,
    pub selected: usize,
    pub scroll_offset: usize,
    pub audio_only: bool,
    pub apply_to_all: bool,
}

/// The entries the popup currently offers: audio-only formats when the
/// toggle is set, video-capable ones otherwise.
pub open spec fn spec_filtered_formats(s: FormatPopupState) -> Seq<Format> {
    if s.audio_only {
        s.formats@.filter(|f: Format| spec_is_audio_only(f))
    } else {
        s.formats@.filter(|f: Format| spec_is_video(f))
    }
}

impl FormatPopupState {
    pub fn new(job_index: usize, formats: Vec<Format>) -> (r: Self)
        ensures
            r.job_index == job_index,
            r.formats == formats,
            r.selected == 0,
            r.scroll_offset == 0,
            !r.audio_only,
            !r.apply_to_all,
    {
        FormatPopupState {
            job_index,
            formats,
            selected: 0,
            scroll_offset: 0,
            audio_only: false,
            apply_to_all: false,
        }
    }

    pub fn filtered_formats(&self) -> (r: Vec<Format>)
        ensures
            r@ == spec_filtered_formats(*self),
    {
        let mut r: Vec<Format> = Vec::new();
        let mut i: usize = 0;
        while i < self.formats.len()
            invariant
                0 <= i <= self.formats@.len(),
                self.audio_only ==> r@ == self.formats@.take(i as int).filter(
                    |f: Format| spec_is_audio_only(f),
                ),
                !self.audio_only ==> r@ == self.formats@.take(i as int).filter(
                    |f: Format| spec_is_video(f),
                ),
            decreases self.formats@.len() - i,
        {
            let f = &self.formats[i];
            proof {
                reveal_with_fuel(Seq::<Format>::filter, 2);
                assert(self.formats@.take(i + 1).drop_last() =~= self.formats@.take(i as int));
                assert(self.formats@.take(i + 1).last() == self.formats@[i as int]);
            }
            let keep = if self.audio_only {
                f.is_audio_only()
            } else {
                f.is_video()
            };
            if keep {
                r.push(f.clone());
            }
            i += 1;
        }
        proof {
            assert(self.formats@.take(self.formats@.len() as int) =~= self.formats@);
        }
        r
    }

    /// The format under the cursor, if the cursor is on the offered list.
    pub fn selected_format(&self) -> (r: Option<Format>)
        ensures
            match r {
                Some(f) => self.selected < spec_filtered_formats(*self).len() && f
                    == spec_filtered_formats(*self)[self.selected as int],
                None => self.selected >= spec_filtered_formats(*self).len(),
            },
    {
        let filtered = self.filtered_formats();
        if self.selected < filtered.len() {
            Some(filtered[self.selected].clone())
        } else {
            None
        }
    }
}

} // verus!
