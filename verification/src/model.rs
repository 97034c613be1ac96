//! Plain presentation-model types: chart, fill, line, text, table and
//! presentation settings that carry no measurement.
use vstd::prelude::*;

verus! {

/// Chart kind.
#[derive(Copy, Clone, Debug, PartialEq, Eq, Hash, Structural)]
pub enum ChartType {
    /// `<c:barChart>`, vertical or horizontal.
    Bar,
    /// `<c:lineChart>`.
    Line,
    /// `<c:pieChart>`.
    Pie,
    /// `<c:doughnutChart>`.
    Doughnut,
    /// `<c:scatterChart>`.
    Scatter,
    /// `<c:bubbleChart>`.
    Bubble,
    /// `<c:areaChart>`.
    Area,
    /// `<c:radarChart>`.
    Radar,
    /// `<c:stockChart>`.
    Stock,
    /// `<c:surfaceChart>`.
    Surface,
    /// `<c:ofPieChart>`.
    OfPie,
}

/// `<c:barDir>`.
#[derive(Copy, Clone, Debug, PartialEq, Eq, Hash, Structural)]
pub enum BarDirection {
    /// Vertical columns.
    Col,
    /// Horizontal bars.
    Bar,
}

/// `<c:radarStyle>`.
#[derive(Copy, Clone, Debug, PartialEq, Eq, Hash, Structural)]
pub enum RadarStyle {
    /// Line only.
    Standard,
    /// Markers only.
    Marker,
    /// Filled.
    Filled,
}

/// `<c:ofPieType>`.
#[derive(Copy, Clone, Debug, PartialEq, Eq, Hash, Structural)]
pub enum OfPieType {
    /// Pie of pie.
    Pie,
    /// Bar of pie.
    Bar,
}

/// Axis tick mark style.
#[derive(Copy, Clone, Debug, PartialEq, Eq, Hash, Default, Structural)]
pub enum TickMark {
    /// No tick marks (`none`).
    NoMark,
    /// Inside the plot area.
    In,
    /// Outside the plot area.
    #[default]
    Out,
    /// Crossing the axis.
    Cross,
}

/// One axis (`<c:catAx>` / `<c:valAx>`).
#[derive(Clone, Debug, PartialEq, Default)]
pub struct ChartAxis {
    /// Axis title text.
    pub title: Option<String>,
    /// Whether major gridlines are drawn across this axis.
    pub major_gridlines: Option<bool>,
    /// Whether minor gridlines are drawn.
    pub minor_gridlines: Option<bool>,
    /// Major tick mark style.
    pub major_tick_mark: Option<TickMark>,
}

/// `<c:axisGroup>`: primary or secondary value axis.
#[derive(Copy, Clone, Debug, PartialEq, Eq, Hash, Default, Structural)]
pub enum AxisGroup {
    /// Primary value axis.
    #[default]
    Primary,
    /// Secondary value axis.
    Secondary,
}

/// `<c:dLbls>` data label settings.
#[derive(Clone, Debug, PartialEq, Default)]
pub struct ChartDataLabels {
    /// `<c:showVal>`.
    pub show_value: Option<bool>,
    /// `<c:showCatName>`.
    pub show_category_name: Option<bool>,
    /// `<c:showSerName>`.
    pub show_series_name: Option<bool>,
    /// `<c:showPercent>`.
    pub show_percent: Option<bool>,
    /// `<c:showLegendKey>`.
    pub show_legend_key: Option<bool>,
    /// `<c:dLblPos>`: `t/b/l/r/ctr/inEnd/outEnd/bestFit/inBase`.
    pub position: Option<String>,
    /// Text / value separator.
    pub separator: Option<String>,
}

/// `<c:trendlineType>`.
#[derive(Copy, Clone, Debug, PartialEq, Eq, Hash, Structural)]
pub enum TrendlineType {
    /// Linear regression.
    Linear,
    /// Exponential.
    Exp,
    /// Logarithmic.
    Log,
    /// Polynomial.
    Poly,
    /// Power.
    Power,
    /// Moving average.
    MovingAvg,
}

/// `<c:trendline>`.
#[derive(Clone, Debug, PartialEq)]
pub struct ChartTrendline {
    /// Curve type.
    pub trendline_type: TrendlineType,
    /// Window size for moving averages.
    pub period: Option<u32>,
    /// Custom name.
    pub name: Option<String>,
}

/// `<c:legendPos>`.
#[derive(Copy, Clone, Debug, PartialEq, Eq, Hash, Default, Structural)]
pub enum LegendPosition {
    /// Bottom.
    B,
    /// Top.
    T,
    /// Left.
    L,
    /// Right.
    #[default]
    R,
    /// Top right (legacy).
    Tr,
}

/// `<c:legend>`.
#[derive(Copy, Clone, Debug, PartialEq, Eq, Hash, Structural)]
pub struct ChartLegend {
    /// Legend position.
    pub position: LegendPosition,
}

/// Gradient geometry.
#[derive(Copy, Clone, Debug, PartialEq, Eq, Hash, Structural)]
pub enum GradientType {
    /// `<a:lin>` linear gradient.
    Linear,
    /// `<a:path>` radial / shape-tracing gradient.
    Radial,
}

/// `<a:tile flip>`.
#[derive(Copy, Clone, Debug, PartialEq, Eq, Hash, Default, Structural)]
pub enum ImageFlip {
    /// No flip (`none`).
    #[default]
    NoFlip,
    /// Across X.
    X,
    /// Across Y.
    Y,
    /// Across both axes.
    Xy,
}

/// `<a:noFill/>`.
#[derive(Copy, Clone, Debug, PartialEq, Eq, Hash, Default, Structural)]
pub struct NoFill {}

/// `<a:prstDash>`.
#[derive(Copy, Clone, Debug, PartialEq, Eq, Hash, Default, Structural)]
pub enum DashStyle {
    /// Solid.
    #[default]
    Solid,
    /// Dash.
    Dash,
    /// Dot.
    Dot,
    /// Dash dot.
    DashDot,
    /// Long dash.
    LgDash,
    /// Long dash dot.
    LgDashDot,
    /// System dash.
    SysDash,
    /// System dot.
    SysDot,
}

/// `<a:ln @cap>`.
#[derive(Copy, Clone, Debug, PartialEq, Eq, Hash, Structural)]
pub enum LineCap {
    /// Butt cap.
    Butt,
    /// Round cap.
    Round,
    /// Square cap.
    Square,
}

/// Line join style.
#[derive(Copy, Clone, Debug, PartialEq, Eq, Hash, Structural)]
pub enum LineJoin {
    /// Mitered.
    Miter,
    /// Round.
    Round,
    /// Beveled.
    Bevel,
}

/// `<a:headEnd|tailEnd @type>`.
#[derive(Copy, Clone, Debug, PartialEq, Eq, Hash, Default, Structural)]
pub enum ArrowType {
    /// No arrow head (`none`).
    #[default]
    NoArrow,
    /// Filled triangle.
    Triangle,
    /// Stealth (concave triangle).
    Stealth,
    /// Diamond.
    Diamond,
    /// Oval.
    Oval,
    /// Open arrow.
    Arrow,
}

/// `<a:headEnd|tailEnd @w/@len>`.
#[derive(Copy, Clone, Debug, PartialEq, Eq, Hash, Default, Structural)]
pub enum ArrowSize {
    /// Small.
    Sm,
    /// Medium.
    #[default]
    Med,
    /// Large.
    Lg,
}

/// Arrow endpoint: head shape, width and length.
#[derive(Copy, Clone, Debug, PartialEq, Eq, Hash, Structural)]
pub struct ArrowEndpoint {
    /// Head shape.
    pub ty: ArrowType,
    /// Width category.
    pub width: ArrowSize,
    /// Length category.
    pub length: ArrowSize,
}

/// One section of `<p14:sectionLst>`.
#[derive(Clone, Debug, PartialEq, Eq)]
pub struct PresentationSection {
    /// Display name.
    pub name: String,
    /// `<p:sldId @id>` of the slides in the section.
    pub slide_ids: Vec<i64>,
}

/// `<p:embeddedFont>`: typeface metadata and per-style relationship ids.
#[derive(Clone, Debug, PartialEq, Eq, Default)]
pub struct EmbeddedFont {
    /// Face name.
    pub typeface: String,
    /// PANOSE classification (10 hex bytes).
    pub panose: Option<String>,
    /// `pitchFamily`.
    pub pitch_family: Option<i32>,
    /// `charset`.
    pub charset: Option<i32>,
    /// Relationship id of the regular face.
    pub regular_r_id: Option<String>,
    /// Relationship id of the bold face.
    pub bold_r_id: Option<String>,
    /// Relationship id of the italic face.
    pub italic_r_id: Option<String>,
    /// Relationship id of the bold-italic face.
    pub bold_italic_r_id: Option<String>,
    /// The regular face is subsetted.
    pub regular_subsetted: bool,
    /// The bold face is subsetted.
    pub bold_subsetted: bool,
    /// The italic face is subsetted.
    pub italic_subsetted: bool,
    /// The bold-italic face is subsetted.
    pub bold_italic_subsetted: bool,
}

/// Hash and salt of the modify-protection password.
#[derive(Clone, Debug, PartialEq, Eq, Default)]
pub struct ModifyVerifier {
    /// Hash algorithm (e.g. `"SHA-512"`).
    pub algorithm_name: Option<String>,
    /// Base64 hash.
    pub hash_value: Option<String>,
    /// Base64 salt.
    pub salt_value: Option<String>,
    /// Iteration count.
    pub spin_count: Option<i64>,
}

/// `<p:modifyVerifier>` protection.
#[derive(Clone, Debug, PartialEq, Eq, Default)]
pub struct Protection {
    /// Modify-verifier details.
    pub modify_verifier: Option<ModifyVerifier>,
}

/// Slide header / footer toggles (`<p:hf>`).
#[derive(Clone, Debug, PartialEq, Eq, Default)]
pub struct SlideHeaderFooter {
    /// Show the slide number.
    pub show_slide_number: bool,
    /// Show date / time.
    pub show_date_time: bool,
    /// Show the footer.
    pub show_footer: bool,
    /// Static footer text.
    pub footer_text: Option<String>,
    /// Static date-time text; `None` means the current date.
    pub datetime_text: Option<String>,
}

/// `<a:tblPr>` style toggles.
#[derive(Copy, Clone, Debug, PartialEq, Eq, Hash, Default, Structural)]
pub struct TableStyleOptions {
    /// First-row banding.
    pub first_row: Option<bool>,
    /// Last-row banding.
    pub last_row: Option<bool>,
    /// First-column banding.
    pub first_col: Option<bool>,
    /// Last-column banding.
    pub last_col: Option<bool>,
    /// Row banding.
    pub band_row: Option<bool>,
    /// Column banding.
    pub band_col: Option<bool>,
}

/// `<a:bodyPr @anchor>`.
#[derive(Copy, Clone, Debug, PartialEq, Eq, Hash, Default, Structural)]
pub enum VerticalAnchor {
    /// Top.
    #[default]
    T,
    /// Center.
    Ctr,
    /// Bottom.
    B,
}

/// `<a:bodyPr @wrap>`.
#[derive(Copy, Clone, Debug, PartialEq, Eq, Hash, Default, Structural)]
pub enum WrapMode {
    /// Wrap inside the box.
    #[default]
    Square,
    /// No wrapping (`none`).
    NoWrap,
}

/// `<a:bodyPr>` auto-fit.
#[derive(Copy, Clone, Debug, PartialEq, Eq, Hash, Default, Structural)]
pub enum AutoFit {
    /// `<a:noAutofit/>`.
    #[default]
    NoAutofit,
    /// `<a:normAutofit/>`.
    NormAutofit,
    /// `<a:spAutoFit/>`.
    SpAutofit,
}

/// `<a:bodyPr @vert>`.
#[derive(Copy, Clone, Debug, PartialEq, Eq, Hash, Default, Structural)]
pub enum TextVerticalType {
    /// Horizontal.
    #[default]
    Horz,
    /// Rotated 90 degrees.
    Vert,
    /// Rotated 270 degrees.
    Vert270,
    /// East-Asian vertical.
    EaVert,
    /// WordArt vertical.
    WordArtVert,
    /// Mongolian vertical.
    MongolianVert,
}

/// `<a:pPr @algn>`.
#[derive(Copy, Clone, Debug, PartialEq, Eq, Hash, Structural)]
pub enum ParagraphAlignment {
    /// Left.
    L,
    /// Center.
    Ctr,
    /// Right.
    R,
    /// Justify.
    Just,
}

/// `<a:buAutoNum @type>`.
#[derive(Copy, Clone, Debug, PartialEq, Eq, Hash, Structural)]
pub enum AutoNumScheme {
    /// `1.`, `2.`, ...
    ArabicPeriod,
    /// `1)`, `2)`, ...
    ArabicParenR,
    /// `I.`, `II.`, ...
    RomanUcPeriod,
    /// `i.`, `ii.`, ...
    RomanLcPeriod,
    /// `A.`, `B.`, ...
    AlphaUcPeriod,
    /// `a.`, `b.`, ...
    AlphaLcPeriod,
    /// `a)`, `b)`, ...
    AlphaLcParenR,
    /// `A)`, `B)`, ...
    AlphaUcParenR,
    /// `1`, `2`, ...
    ArabicPlain,
    /// Double-byte plain circled numbers.
    CircleNumDbPlain,
    /// White-on-black circled numbers.
    CircleNumWdBlackPlain,
    /// White-on-white circled numbers.
    CircleNumWdWhitePlain,
}

/// `<a:buNone/>` / `<a:buChar/>` / `<a:buAutoNum/>`.
#[derive(Clone, Debug, PartialEq)]
pub enum BulletType {
    /// `<a:buNone/>`.
    NoBullet,
    /// `<a:buChar @char>`.
    Char {
        /// The bullet character.
        char: String,
    },
    /// `<a:buAutoNum @type @startAt>`.
    AutoNum {
        /// Numbering scheme.
        scheme: AutoNumScheme,
        /// First number.
        start_at: u32,
    },
}

/// `<a:tab @algn>`.
#[derive(Copy, Clone, Debug, PartialEq, Eq, Hash, Default, Structural)]
pub enum TabStopAlignment {
    /// Left.
    #[default]
    L,
    /// Center.
    Ctr,
    /// Right.
    R,
    /// Decimal.
    Dec,
}

/// `<a:hlinkClick>`.
#[derive(Clone, Debug, PartialEq, Eq)]
pub struct Hyperlink {
    /// Target URL.
    pub url: String,
    /// `@tooltip`.
    pub tooltip: Option<String>,
}

} // verus!
