use vstd::prelude::*;
use vstd::string::*;
use crate::clock::{clock_spec, date_spec, LocalTime};
use crate::color::Pixel;
use crate::framebuffer::{draw_all, lemma_draw_all_append, Display};
use crate::render::{
    bitmap_source, draw_bitmap, draw_text, icon_len, text_source, wrap_text, wrapped_of,
};
use crate::weather::{
    bearing_sector, condition_icon, condition_of, first_summary, sector_of, ConditionIcon,
    Datablock, Datapoint, WindDirection,
};

verus! {

/// The bitmaps the scene draws: eight wind arrows and three condition
/// icons, 40 by 40 pixels each.
pub struct IconSet {
    pub arrow_north: Vec<u8>,
    pub arrow_north_east: Vec<u8>,
    pub arrow_east: Vec<u8>,
    pub arrow_south_east: Vec<u8>,
    pub arrow_south: Vec<u8>,
    pub arrow_south_west: Vec<u8>,
    pub arrow_west: Vec<u8>,
    pub arrow_north_west: Vec<u8>,
    pub clear_day: Vec<u8>,
    pub clear_night: Vec<u8>,
    pub partly_cloudy_day: Vec<u8>,
}

impl IconSet {
    /// Every bitmap holds a whole 40 by 40 image.
    pub open spec fn wf(&self) -> bool {
        &&& self.arrow_north@.len() >= icon_len()
        &&& self.arrow_north_east@.len() >= icon_len()
        &&& self.arrow_east@.len() >= icon_len()
        &&& self.arrow_south_east@.len() >= icon_len()
        &&& self.arrow_south@.len() >= icon_len()
        &&& self.arrow_south_west@.len() >= icon_len()
        &&& self.arrow_west@.len() >= icon_len()
        &&& self.arrow_north_west@.len() >= icon_len()
        &&& self.clear_day@.len() >= icon_len()
        &&& self.clear_night@.len() >= icon_len()
        &&& self.partly_cloudy_day@.len() >= icon_len()
    }

    pub open spec fn arrow_spec(&self, dir: WindDirection) -> Seq<u8> {
        match dir {
            WindDirection::North => self.arrow_north@,
            WindDirection::NorthEast => self.arrow_north_east@,
            WindDirection::East => self.arrow_east@,
            WindDirection::SouthEast => self.arrow_south_east@,
            WindDirection::South => self.arrow_south@,
            WindDirection::SouthWest => self.arrow_south_west@,
            WindDirection::West => self.arrow_west@,
            WindDirection::NorthWest => self.arrow_north_west@,
        }
    }

    pub open spec fn condition_spec(&self, icon: ConditionIcon) -> Seq<u8> {
        match icon {
            ConditionIcon::ClearDay => self.clear_day@,
            ConditionIcon::ClearNight => self.clear_night@,
            ConditionIcon::PartlyCloudyDay => self.partly_cloudy_day@,
        }
    }

    /// The arrow bitmap for a wind direction.
    pub fn arrow(&self, dir: WindDirection) -> (r: &Vec<u8>)
        ensures
            r@ == self.arrow_spec(dir),
    {
        match dir {
            WindDirection::North => &self.arrow_north,
            WindDirection::NorthEast => &self.arrow_north_east,
            WindDirection::East => &self.arrow_east,
            WindDirection::SouthEast => &self.arrow_south_east,
            WindDirection::South => &self.arrow_south,
            WindDirection::SouthWest => &self.arrow_south_west,
            WindDirection::West => &self.arrow_west,
            WindDirection::NorthWest => &self.arrow_north_west,
        }
    }

    /// The bitmap for a condition icon.
    pub fn condition(&self, icon: ConditionIcon) -> (r: &Vec<u8>)
        ensures
            r@ == self.condition_spec(icon),
    {
        match icon {
            ConditionIcon::ClearDay => &self.clear_day,
            ConditionIcon::ClearNight => &self.clear_night,
            ConditionIcon::PartlyCloudyDay => &self.partly_cloudy_day,
        }
    }
}

pub open spec fn opt_view(o: Option<String>) -> Option<Seq<char>> {
    match o {
        Some(s) => Some(s@),
        None => None,
    }
}

/// Column at which wrapped summaries break.
pub const WRAP_WIDTH: usize = 20;

/// Top of summary line `j`: the first at 20, one every 10 pixels.
pub open spec fn line_top(j: int) -> int {
    20 + 10 * j
}

/// Line `j` starts inside a grid `cols` pixels high, at a height the text
/// renderer accepts.
pub open spec fn line_fits(j: int, cols: int) -> bool {
    line_top(j) < cols && line_top(j) <= 0x1000_0000
}

/// How many of `n` lines stacked from line `first` start inside the grid;
/// the rest would fall wholly below it and are not rendered.
pub open spec fn shown_count(n: nat, first: int, cols: int) -> nat
    decreases n,
{
    if n == 0 || !line_fits(first, cols) {
        0
    } else {
        1 + shown_count((n - 1) as nat, first + 1, cols)
    }
}

/// Text lines stacked at x = 130 from line `first` down, in the small font.
pub open spec fn line_steps(lines: Seq<Seq<char>>, first: int, cols: int) -> Seq<Seq<Pixel>> {
    Seq::new(
        shown_count(lines.len(), first, cols),
        |k: int| text_source(9, lines[k], 130, line_top(first + k)),
    )
}

/// The lines of a summary with its prefix, wrapped; none when it is absent.
pub open spec fn summary_lines(prefix: Seq<char>, summary: Option<Seq<char>>) -> Seq<Seq<char>> {
    match summary {
        Some(s) => wrapped_of(prefix + s, WRAP_WIDTH as int),
        None => Seq::empty(),
    }
}

/// The line where the daily summary starts, below `n` lines of the current
/// one.
pub open spec fn daily_first_line(n: int) -> int {
    if n == 0 {
        1
    } else {
        n
    }
}

/// A medium-size label `value + suffix` at `(x, 0)`, if the value is there.
pub open spec fn label_steps(value: Option<String>, suffix: Seq<char>, x: int) -> Seq<Seq<Pixel>> {
    match value {
        Some(t) => seq![text_source(14, t@ + suffix, x, 0)],
        None => Seq::empty(),
    }
}

/// The wind arrow (when a bearing is known) and the wind speed label.
pub open spec fn wind_steps(c: Datapoint, icons: IconSet) -> Seq<Seq<Pixel>> {
    match c.wind_speed {
        Some(w) => {
            let arrow = match c.wind_bearing {
                Some(b) => seq![bitmap_source(icons.arrow_spec(sector_of(b as int)), 86, 44)],
                None => Seq::empty(),
            };
            arrow + seq![text_source(14, w@ + "MPH"@, 200, 0)]
        },
        None => Seq::empty(),
    }
}

/// The condition bitmap at (86, 0), if the category has one.
pub open spec fn condition_steps(icon: Option<ConditionIcon>, icons: IconSet) -> Seq<Seq<Pixel>> {
    match icon {
        Some(i) => seq![bitmap_source(icons.condition_spec(i), 86, 0)],
        None => Seq::empty(),
    }
}

/// What the current datapoint adds to the scene, in drawing order.
pub open spec fn current_steps(c: Datapoint, daily: Option<Seq<char>>, icons: IconSet, cols: int) -> Seq<
    Seq<Pixel>,
> {
    let cur = summary_lines("Currently: "@, opt_view(c.summary));
    label_steps(c.temperature, "\u{b0}"@, 130) + label_steps(c.precip_probability, "%"@, 162)
        + wind_steps(c, icons) + line_steps(cur, 0, cols) + line_steps(
        summary_lines("Today: "@, daily),
        daily_first_line(cur.len() as int),
        cols,
    ) + condition_steps(condition_of(c.icon), icons)
}

/// The whole scene, in drawing order: clock, date, then the current
/// conditions when there are any.
pub open spec fn scene_steps(
    clock: Seq<char>,
    date: Seq<char>,
    currently: Option<Datapoint>,
    daily: Option<Datablock>,
    icons: IconSet,
    cols: int,
) -> Seq<Seq<Pixel>> {
    seq![text_source(24, clock, 0, 20), text_source(14, date, 0, 0)] + match currently {
        Some(c) => current_steps(c, first_summary(daily), icons, cols),
        None => Seq::empty(),
    }
}

/// The picture `d` shows, as a function of the rows, columns and bytes.
pub open spec fn drawn(d: Display, old_d: Display, steps: Seq<Seq<Pixel>>) -> bool {
    &&& d.wf()
    &&& d.rows() == old_d.rows()
    &&& d.cols() == old_d.cols()
    &&& d.bytes() == draw_all(old_d.bytes(), old_d.rows(), old_d.cols(), steps)
}

/// Draws the label `value + suffix` at `(x, 0)` if the value is there.
fn draw_label(d: &mut Display, value: &Option<String>, suffix: &str, x: i32)
    requires
        old(d).wf(),
        0 <= x <= 0x1000_0000,
    ensures
        drawn(*final(d), *old(d), label_steps(*value, suffix@, x as int)),
{
    match value {
        Some(t) => {
            let mut text = t.clone();
            text.append(suffix);
            draw_text(d, 14, text.as_str(), x, 0);
        },
        None => {},
    }
}

/// Draws text lines stacked from line `first` down, as long as they start
/// inside the grid.
fn draw_lines(d: &mut Display, lines: &Vec<String>, first: usize)
    requires
        old(d).wf(),
    ensures
        drawn(
            *final(d),
            *old(d),
            line_steps(lines@.map_values(|l: String| l@), first as int, old(d).cols()),
        ),
{
    let ghost views = lines@.map_values(|l: String| l@);
    let ghost start = d.bytes();
    let ghost rows = d.rows();
    let ghost cols = d.cols();
    let cols_exec: u32 = d.cols_count();
    let mut k: usize = 0;
    let mut j: u64 = first as u64;
    while k < lines.len() && j <= 26843543 && 20 + 10 * j < cols_exec as u64
        invariant
            k <= lines@.len(),
            j == first + k,
            views == lines@.map_values(|l: String| l@),
            d.wf(),
            d.rows() == rows,
            d.cols() == cols,
            cols == cols_exec,
            rows == old(d).rows(),
            cols == old(d).cols(),
            start == old(d).bytes(),
            d.bytes() == draw_all(
                start,
                rows,
                cols,
                Seq::new(k as nat, |i: int| text_source(9, views[i], 130, line_top(first + i))),
            ),
            shown_count(views.len(), first as int, cols) == k + shown_count(
                (views.len() - k) as nat,
                first + k,
                cols,
            ),
        decreases lines@.len() - k,
    {
        let y: i32 = (20 + 10 * j) as i32;
        let ghost before = Seq::new(k as nat, |i: int| text_source(9, views[i], 130, line_top(first + i)));
        draw_text(d, 9, lines[k].as_str(), 130, y);
        proof {
            let step = text_source(9, views[k as int], 130, line_top(first + k));
            lemma_draw_all_append(start, rows, cols, before, seq![step]);
            assert(before + seq![step] =~= Seq::new(
                (k + 1) as nat,
                |i: int| text_source(9, views[i], 130, line_top(first + i)),
            ));
        }
        k = k + 1;
        j = j + 1;
    }
    proof {
        assert(shown_count((views.len() - k) as nat, first + k, cols) == 0);
        assert(line_steps(views, first as int, cols) =~= Seq::new(
            k as nat,
            |i: int| text_source(9, views[i], 130, line_top(first + i)),
        ));
    }
}

/// Wraps `prefix + summary` and stacks its lines from line `first` down;
/// returns how many lines the wrapping made (0 when there is no summary).
fn draw_summary(d: &mut Display, prefix: &str, summary: &Option<String>, first: usize) -> (n: usize)
    requires
        old(d).wf(),
    ensures
        n == summary_lines(prefix@, opt_view(*summary)).len(),
        drawn(
            *final(d),
            *old(d),
            line_steps(summary_lines(prefix@, opt_view(*summary)), first as int, old(d).cols()),
        ),
{
    match summary {
        Some(t) => {
            let mut text = prefix.to_owned();
            text.append(t.as_str());
            let lines = wrap_text(text.as_str(), WRAP_WIDTH);
            proof {
                assert(lines@.map_values(|l: String| l@) =~= summary_lines(prefix@, opt_view(*summary)));
            }
            draw_lines(d, &lines, first);
            lines.len()
        },
        None => {
            proof {
                assert(line_steps(Seq::empty(), first as int, d.cols()) =~= Seq::empty());
            }
            0
        },
    }
}

/// Draws the wind arrow and the wind speed label.
fn draw_wind(d: &mut Display, c: &Datapoint, icons: &IconSet)
    requires
        old(d).wf(),
        icons.wf(),
    ensures
        drawn(*final(d), *old(d), wind_steps(*c, *icons)),
{
    match &c.wind_speed {
        Some(w) => {
            let ghost start = *d;
            let ghost arrow = match c.wind_bearing {
                Some(b) => seq![bitmap_source(icons.arrow_spec(sector_of(b as int)), 86, 44)],
                None => Seq::<Seq<Pixel>>::empty(),
            };
            match c.wind_bearing {
                Some(b) => {
                    let dir = bearing_sector(b);
                    draw_bitmap(d, icons.arrow(dir), 86, 44);
                },
                None => {},
            }
            let ghost mid = *d;
            let mut text = w.clone();
            text.append("MPH");
            draw_text(d, 14, text.as_str(), 200, 0);
            proof {
                lemma_draw_all_append(start.bytes(), start.rows(), start.cols(), arrow, seq![text_source(14, text@, 200, 0)]);
            }
        },
        None => {},
    }
}

/// Draws the condition bitmap, if the category has one.
fn draw_condition(d: &mut Display, c: &Datapoint, icons: &IconSet)
    requires
        old(d).wf(),
        icons.wf(),
    ensures
        drawn(*final(d), *old(d), condition_steps(condition_of(c.icon), *icons)),
{
    match condition_icon(c.icon) {
        Some(i) => {
            draw_bitmap(d, icons.condition(i), 86, 0);
        },
        None => {},
    }
}

/// Draws what the current datapoint adds to the scene.
fn draw_current(d: &mut Display, c: &Datapoint, daily: &Option<String>, icons: &IconSet)
    requires
        old(d).wf(),
        icons.wf(),
    ensures
        drawn(*final(d), *old(d), current_steps(*c, opt_view(*daily), *icons, old(d).cols())),
{
    let ghost d0 = *d;
    let ghost cols = d.cols();
    draw_label(d, &c.temperature, "\u{b0}", 130);
    let ghost d1 = *d;
    draw_label(d, &c.precip_probability, "%", 162);
    let ghost d2 = *d;
    draw_wind(d, c, icons);
    let ghost d3 = *d;
    let n = draw_summary(d, "Currently: ", &c.summary, 0);
    let ghost d4 = *d;
    let first: usize = if n == 0 {
        1
    } else {
        n
    };
    draw_summary(d, "Today: ", daily, first);
    let ghost d5 = *d;
    draw_condition(d, c, icons);
    proof {
        let s1 = label_steps(c.temperature, "\u{b0}"@, 130);
        let s2 = label_steps(c.precip_probability, "%"@, 162);
        let s3 = wind_steps(*c, *icons);
        let cur = summary_lines("Currently: "@, opt_view(c.summary));
        let s4 = line_steps(cur, 0, cols);
        let s5 = line_steps(summary_lines("Today: "@, opt_view(*daily)), daily_first_line(cur.len() as int), cols);
        let s6 = condition_steps(condition_of(c.icon), *icons);
        let (b, r) = (d0.bytes(), d0.rows());
        lemma_draw_all_append(b, r, cols, s1, s2);
        lemma_draw_all_append(b, r, cols, s1 + s2, s3);
        lemma_draw_all_append(b, r, cols, s1 + s2 + s3, s4);
        lemma_draw_all_append(b, r, cols, s1 + s2 + s3 + s4, s5);
        lemma_draw_all_append(b, r, cols, s1 + s2 + s3 + s4 + s5, s6);
    }
}

/// Renders the scene onto `d`: the time `now` as `HH:MM` in the large font
/// at (0, 20), its date as `DD/MM/YY` at (0, 0), then, when current conditions are known, temperature,
/// precipitation, wind, the wrapped current and daily summaries and the
/// condition icon. Each absent field skips its element; later elements
/// overwrite earlier ones where they overlap.
pub fn render_scene(
    d: &mut Display,
    now: &LocalTime,
    currently: &Option<Datapoint>,
    daily: &Option<Datablock>,
    icons: &IconSet,
)
    requires
        old(d).wf(),
        now.wf(),
        icons.wf(),
    ensures
        drawn(
            *final(d),
            *old(d),
            scene_steps(clock_spec(*now), date_spec(*now), *currently, *daily, *icons, old(d).cols()),
        ),
{
    let ghost d0 = *d;
    let clock_string = now.clock_text();
    let date_string = now.date_text();
    let clock = clock_string.as_str();
    let date = date_string.as_str();
    draw_text(d, 24, clock, 0, 20);
    draw_text(d, 14, date, 0, 0);
    proof {
        lemma_draw_all_append(d0.bytes(), d0.rows(), d0.cols(), seq![text_source(24, clock@, 0, 20)], seq![text_source(14, date@, 0, 0)]);
        assert(seq![text_source(24, clock@, 0, 20)] + seq![text_source(14, date@, 0, 0)] =~= seq![text_source(24, clock@, 0, 20), text_source(14, date@, 0, 0)]);
    }
    match currently {
        Some(c) => {
            let summary = daily_summary(daily);
            let ghost d1 = *d;
            draw_current(d, c, &summary, icons);
            proof {
                lemma_draw_all_append(d0.bytes(), d0.rows(), d0.cols(), seq![text_source(24, clock@, 0, 20), text_source(14, date@, 0, 0)], current_steps(*c, first_summary(*daily), *icons, d0.cols()));
            }
        },
        None => {
            proof {
                let s = seq![text_source(24, clock@, 0, 20), text_source(14, date@, 0, 0)];
                assert(s + Seq::<Seq<Pixel>>::empty() =~= s);
            }
        },
    }
}

/// The summary of the first datapoint of a daily block, if there is one.
pub fn daily_summary(daily: &Option<Datablock>) -> (r: Option<String>)
    ensures
        opt_view(r) == first_summary(*daily),
{
    match daily {
        Some(b) => match &b.data {
            Some(v) => {
                if v.len() > 0 {
                    match &v[0].summary {
                        Some(s) => Some(s.clone()),
                        None => None,
                    }
                } else {
                    None
                }
            },
            None => None,
        },
        None => None,
    }
}

proof fn lemma_shown_count(n: nat, first: int, cols: int)
    ensures
        shown_count(n, first, cols) <= n,
        n > 0 && line_fits(first + n - 1, cols) ==> shown_count(n, first, cols) == n,
    decreases n,
{
    if n > 0 {
        lemma_shown_count((n - 1) as nat, first + 1, cols);
    }
}

/// Wrapped lines stack downwards: line `k` of a block that starts at line
/// `first` is the `k`-th wrapped line, in the small font at x = 130 and
/// y = 20 + 10 * (first + k), so consecutive lines are exactly 10 pixels
/// apart; every line is drawn when the last one starts inside the grid.
pub proof fn lemma_lines_stack(lines: Seq<Seq<char>>, first: int, cols: int)
    ensures
        line_steps(lines, first, cols).len() <= lines.len(),
        lines.len() > 0 && line_fits(first + lines.len() - 1, cols) ==> line_steps(lines, first, cols).len()
            == lines.len(),
        forall|k: int|
            0 <= k < line_steps(lines, first, cols).len() ==> #[trigger] line_steps(lines, first, cols)[k]
                == text_source(9, lines[k], 130, 20 + 10 * (first + k)),
        forall|k: int| #[trigger] line_top(first + k + 1) == line_top(first + k) + 10,
{
    lemma_shown_count(lines.len(), first, cols);
}

/// Without a wind speed nothing of the wind is drawn, whatever the bearing:
/// the picture is the one in which the wind step is skipped.
pub proof fn lemma_absent_wind_leaves_no_trace(
    c1: Datapoint,
    c2: Datapoint,
    daily: Option<Seq<char>>,
    icons: IconSet,
    cols: int,
)
    requires
        c1.wind_speed is None,
        c2.wind_speed is None,
        c1.temperature == c2.temperature,
        c1.precip_probability == c2.precip_probability,
        c1.summary == c2.summary,
        c1.icon == c2.icon,
    ensures
        wind_steps(c1, icons) == Seq::<Seq<Pixel>>::empty(),
        current_steps(c1, daily, icons, cols) == current_steps(c2, daily, icons, cols),
{
}

/// A datapoint with nothing in it, and no daily summary, draws exactly what
/// no datapoint at all draws: the clock and the date.
pub proof fn lemma_empty_datapoint_draws_clock_only(
    clock: Seq<char>,
    date: Seq<char>,
    c: Datapoint,
    daily: Option<Datablock>,
    icons: IconSet,
    cols: int,
)
    requires
        c.temperature is None,
        c.precip_probability is None,
        c.wind_speed is None,
        c.summary is None,
        c.icon is None,
        first_summary(daily) is None,
    ensures
        scene_steps(clock, date, Some(c), daily, icons, cols) == scene_steps(clock, date, None, daily, icons, cols),
        scene_steps(clock, date, None, daily, icons, cols) == seq![
            text_source(24, clock, 0, 20),
            text_source(14, date, 0, 0),
        ],
{
    let cur = summary_lines("Currently: "@, opt_view(c.summary));
    assert(line_steps(cur, 0, cols) =~= Seq::empty());
    assert(line_steps(summary_lines("Today: "@, first_summary(daily)), daily_first_line(0), cols) =~= Seq::empty());
    assert(current_steps(c, first_summary(daily), icons, cols) =~= Seq::empty());
    let s = seq![text_source(24, clock, 0, 20), text_source(14, date, 0, 0)];
    assert(s + Seq::<Seq<Pixel>>::empty() =~= s);
}

/// An absent field leaves exactly its own element out of the picture:
/// the current conditions draw temperature, precipitation, wind, current
/// summary, daily summary and condition icon in that order, and dropping any
/// one field gives the same sequence with that element skipped (without a
/// current summary the daily one starts on the second line). A daily block
/// with no datapoints has no summary.
pub proof fn lemma_absent_field_skips_its_step(
    c: Datapoint,
    daily: Option<Seq<char>>,
    icons: IconSet,
    cols: int,
)
    ensures
        ({
            let t = label_steps(c.temperature, "\u{b0}"@, 130);
            let p = label_steps(c.precip_probability, "%"@, 162);
            let w = wind_steps(c, icons);
            let cur = summary_lines("Currently: "@, opt_view(c.summary));
            let s = line_steps(cur, 0, cols);
            let d = line_steps(summary_lines("Today: "@, daily), daily_first_line(cur.len() as int), cols);
            let i = condition_steps(condition_of(c.icon), icons);
            &&& current_steps(c, daily, icons, cols) == t + p + w + s + d + i
            &&& current_steps(Datapoint { temperature: None, ..c }, daily, icons, cols) == p + w + s + d + i
            &&& current_steps(Datapoint { precip_probability: None, ..c }, daily, icons, cols) == t + w + s + d + i
            &&& current_steps(Datapoint { wind_speed: None, ..c }, daily, icons, cols) == t + p + s + d + i
            &&& current_steps(c, None, icons, cols) == t + p + w + s + i
            &&& current_steps(Datapoint { icon: None, ..c }, daily, icons, cols) == t + p + w + s + d
            &&& condition_of(c.icon) is None ==> current_steps(c, daily, icons, cols) == t + p + w + s + d
            &&& current_steps(Datapoint { summary: None, ..c }, daily, icons, cols) == t + p + w + line_steps(
                summary_lines("Today: "@, daily),
                1,
                cols,
            ) + i
        }),
        forall|b: Datablock|
            #![trigger first_summary(Some(b))]
            (b.data matches Some(v) && v@.len() == 0) ==> first_summary(Some(b)) is None,
{
    let e = Seq::<Seq<Pixel>>::empty();
    let t = label_steps(c.temperature, "\u{b0}"@, 130);
    let p = label_steps(c.precip_probability, "%"@, 162);
    let w = wind_steps(c, icons);
    let cur = summary_lines("Currently: "@, opt_view(c.summary));
    let s = line_steps(cur, 0, cols);
    let d = line_steps(summary_lines("Today: "@, daily), daily_first_line(cur.len() as int), cols);
    let i = condition_steps(condition_of(c.icon), icons);
    assert(e + p + w + s + d + i =~= p + w + s + d + i);
    assert(t + e + w + s + d + i =~= t + w + s + d + i);
    assert(t + p + e + s + d + i =~= t + p + s + d + i);
    assert(line_steps(Seq::empty(), daily_first_line(cur.len() as int), cols) =~= e);
    assert(t + p + w + s + e + i =~= t + p + w + s + i);
    assert(t + p + w + s + d + e =~= t + p + w + s + d);
    assert(line_steps(Seq::empty(), 0, cols) =~= e);
    assert(t + p + w + e + line_steps(summary_lines("Today: "@, daily), 1, cols) + i =~= t + p + w
        + line_steps(summary_lines("Today: "@, daily), 1, cols) + i);
}

} // verus!
