//! Local CJK fallback chains for mapped Noto family names.
//!
//! When the mapping yields e.g. `Noto Sans JP` but the host has no Noto
//! installed, the renderer walks the chain returned here. The chain is
//! the same on every host: Windows-native families first (most decks
//! are authored on Windows), then macOS-native ones, then Linux
//! community and pan-CJK families, each name once.
use vstd::prelude::*;

use crate::strs::str_eq;

verus! {

/// Operating system for fallback selection.
#[derive(Debug, Clone, Copy, PartialEq, Eq, Hash)]
pub enum CjkPlatform {
    /// Apple macOS.
    MacOs,
    /// Microsoft Windows.
    Windows,
    /// Linux distributions.
    Linux,
    /// Any other target.
    Other,
}

/// Windows-native fallbacks: each mapped family with one of its
/// fallbacks per entry, a family's fallbacks contiguous and in order.
pub const WINDOWS_FALLBACKS: [(&'static str, &'static str); 187] = [
    ("Yu Gothic", "Yu Gothic UI"),
    ("Yu Gothic", "Yu Gothic Medium"),
    ("Yu Gothic", "Meiryo"),
    ("Yu Gothic", "MS Gothic"),
    ("Yu Gothic UI", "Yu Gothic"),
    ("Yu Gothic UI", "Yu Gothic Medium"),
    ("Yu Gothic UI", "Meiryo"),
    ("Yu Gothic Medium", "Yu Gothic"),
    ("Yu Gothic Medium", "Yu Gothic UI"),
    ("Yu Gothic Medium", "Meiryo"),
    ("Yu Gothic Light", "Yu Gothic"),
    ("Yu Gothic Light", "Yu Gothic UI"),
    ("Yu Gothic Light", "Meiryo"),
    ("Yu Mincho", "MS Mincho"),
    ("Meiryo", "Yu Gothic"),
    ("Meiryo", "Yu Gothic UI"),
    ("Meiryo", "MS Gothic"),
    ("Meiryo UI", "Meiryo"),
    ("Meiryo UI", "Yu Gothic UI"),
    ("Meiryo UI", "Yu Gothic"),
    ("MS Gothic", "Yu Gothic"),
    ("MS Gothic", "Yu Gothic UI"),
    ("MS Gothic", "Meiryo"),
    ("MS PGothic", "MS Gothic"),
    ("MS PGothic", "Yu Gothic"),
    ("MS PGothic", "Meiryo"),
    ("MS UI Gothic", "MS Gothic"),
    ("MS UI Gothic", "Yu Gothic UI"),
    ("MS UI Gothic", "Meiryo"),
    ("MS Mincho", "Yu Mincho"),
    ("MS Mincho", "MS PMincho"),
    ("MS PMincho", "MS Mincho"),
    ("MS PMincho", "Yu Mincho"),
    ("ＭＳ Ｐゴシック", "MS PGothic"),
    ("ＭＳ Ｐゴシック", "MS Gothic"),
    ("ＭＳ Ｐゴシック", "Yu Gothic UI"),
    ("ＭＳ Ｐゴシック", "Meiryo"),
    ("ＭＳ ゴシック", "MS Gothic"),
    ("ＭＳ ゴシック", "MS PGothic"),
    ("ＭＳ ゴシック", "Yu Gothic UI"),
    ("ＭＳ ゴシック", "Meiryo"),
    ("ＭＳ Ｐ明朝", "MS PMincho"),
    ("ＭＳ Ｐ明朝", "MS Mincho"),
    ("ＭＳ Ｐ明朝", "Yu Mincho"),
    ("ＭＳ 明朝", "MS Mincho"),
    ("ＭＳ 明朝", "MS PMincho"),
    ("ＭＳ 明朝", "Yu Mincho"),
    ("游ゴシック", "Yu Gothic"),
    ("游ゴシック", "Yu Gothic UI"),
    ("游ゴシック", "Yu Gothic Medium"),
    ("游明朝", "Yu Mincho"),
    ("游明朝", "MS Mincho"),
    ("メイリオ", "Meiryo"),
    ("メイリオ", "Meiryo UI"),
    ("メイリオ", "Yu Gothic"),
    ("メイリオ", "MS Gothic"),
    ("Malgun Gothic", "MalgunGothic"),
    ("Malgun Gothic", "맑은 고딕"),
    ("Malgun Gothic", "Dotum"),
    ("Malgun Gothic", "Gulim"),
    ("MalgunGothic", "Malgun Gothic"),
    ("MalgunGothic", "맑은 고딕"),
    ("MalgunGothic", "Dotum"),
    ("MalgunGothic", "Gulim"),
    ("맑은 고딕", "Malgun Gothic"),
    ("맑은 고딕", "MalgunGothic"),
    ("맑은 고딕", "Dotum"),
    ("맑은 고딕", "Gulim"),
    ("Batang", "바탕"),
    ("Batang", "Gungsuh"),
    ("Batang", "궁서"),
    ("Gulim", "굴림"),
    ("Gulim", "Dotum"),
    ("Gulim", "돋움"),
    ("Dotum", "돋움"),
    ("Dotum", "Gulim"),
    ("Dotum", "굴림"),
    ("Microsoft YaHei", "Microsoft YaHei UI"),
    ("Microsoft YaHei", "微软雅黑"),
    ("Microsoft YaHei", "SimHei"),
    ("Microsoft YaHei", "黑体"),
    ("Microsoft YaHei UI", "Microsoft YaHei"),
    ("Microsoft YaHei UI", "微软雅黑"),
    ("Microsoft YaHei UI", "SimHei"),
    ("微软雅黑", "Microsoft YaHei"),
    ("微软雅黑", "Microsoft YaHei UI"),
    ("微软雅黑", "SimHei"),
    ("SimSun", "宋体"),
    ("SimSun", "NSimSun"),
    ("SimSun", "FangSong"),
    ("宋体", "SimSun"),
    ("宋体", "NSimSun"),
    ("SimHei", "Microsoft YaHei"),
    ("SimHei", "黑体"),
    ("黑体", "SimHei"),
    ("黑体", "Microsoft YaHei"),
    ("Microsoft JhengHei", "Microsoft JhengHei UI"),
    ("Microsoft JhengHei", "微軟正黑體"),
    ("Microsoft JhengHei", "PMingLiU"),
    ("Microsoft JhengHei UI", "Microsoft JhengHei"),
    ("Microsoft JhengHei UI", "微軟正黑體"),
    ("微軟正黑體", "Microsoft JhengHei"),
    ("微軟正黑體", "Microsoft JhengHei UI"),
    ("PMingLiU", "新細明體"),
    ("PMingLiU", "MingLiU"),
    ("PMingLiU", "細明體"),
    ("新細明體", "PMingLiU"),
    ("新細明體", "MingLiU"),
    ("MingLiU", "細明體"),
    ("MingLiU", "PMingLiU"),
    ("細明體", "MingLiU"),
    ("細明體", "PMingLiU"),
    ("Noto Sans JP", "Yu Gothic"),
    ("Noto Sans JP", "Meiryo"),
    ("Noto Sans JP", "MS Gothic"),
    ("Noto Sans CJK JP", "Yu Gothic"),
    ("Noto Sans CJK JP", "Meiryo"),
    ("Noto Sans CJK JP", "MS Gothic"),
    ("Noto Serif JP", "Yu Mincho"),
    ("Noto Serif JP", "MS Mincho"),
    ("Noto Serif CJK JP", "Yu Mincho"),
    ("Noto Serif CJK JP", "MS Mincho"),
    ("Noto Sans KR", "Pretendard"),
    ("Noto Sans KR", "Malgun Gothic"),
    ("Noto Sans KR", "MalgunGothic"),
    ("Noto Sans KR", "맑은 고딕"),
    ("Noto Sans KR", "Dotum"),
    ("Noto Sans KR", "Gulim"),
    ("Noto Sans KR", "Noto Sans CJK KR"),
    ("Noto Sans CJK KR", "Pretendard"),
    ("Noto Sans CJK KR", "Malgun Gothic"),
    ("Noto Sans CJK KR", "MalgunGothic"),
    ("Noto Sans CJK KR", "맑은 고딕"),
    ("Noto Sans CJK KR", "Dotum"),
    ("Noto Sans CJK KR", "Gulim"),
    ("Noto Serif KR", "Batang"),
    ("Noto Serif KR", "바탕"),
    ("Noto Serif KR", "Gungsuh"),
    ("Noto Serif KR", "궁서"),
    ("Noto Serif KR", "Noto Serif CJK KR"),
    ("Noto Serif CJK KR", "Batang"),
    ("Noto Serif CJK KR", "바탕"),
    ("Noto Serif CJK KR", "Gungsuh"),
    ("Noto Serif CJK KR", "궁서"),
    ("Noto Sans SC", "Microsoft YaHei"),
    ("Noto Sans SC", "Microsoft YaHei UI"),
    ("Noto Sans SC", "微软雅黑"),
    ("Noto Sans SC", "SimHei"),
    ("Noto Sans SC", "黑体"),
    ("Noto Sans SC", "Source Han Sans SC"),
    ("Noto Sans SC", "Noto Sans CJK SC"),
    ("Noto Sans CJK SC", "Microsoft YaHei"),
    ("Noto Sans CJK SC", "Microsoft YaHei UI"),
    ("Noto Sans CJK SC", "微软雅黑"),
    ("Noto Sans CJK SC", "SimHei"),
    ("Noto Sans CJK SC", "黑体"),
    ("Noto Sans CJK SC", "Source Han Sans SC"),
    ("Noto Serif SC", "SimSun"),
    ("Noto Serif SC", "宋体"),
    ("Noto Serif SC", "NSimSun"),
    ("Noto Serif SC", "FangSong"),
    ("Noto Serif SC", "Source Han Serif SC"),
    ("Noto Serif SC", "Noto Serif CJK SC"),
    ("Noto Serif CJK SC", "SimSun"),
    ("Noto Serif CJK SC", "宋体"),
    ("Noto Serif CJK SC", "NSimSun"),
    ("Noto Serif CJK SC", "Source Han Serif SC"),
    ("Noto Sans TC", "Microsoft JhengHei"),
    ("Noto Sans TC", "Microsoft JhengHei UI"),
    ("Noto Sans TC", "微軟正黑體"),
    ("Noto Sans TC", "Source Han Sans TC"),
    ("Noto Sans TC", "Noto Sans CJK TC"),
    ("Noto Sans CJK TC", "Microsoft JhengHei"),
    ("Noto Sans CJK TC", "Microsoft JhengHei UI"),
    ("Noto Sans CJK TC", "微軟正黑體"),
    ("Noto Sans CJK TC", "Source Han Sans TC"),
    ("Noto Serif TC", "PMingLiU"),
    ("Noto Serif TC", "新細明體"),
    ("Noto Serif TC", "MingLiU"),
    ("Noto Serif TC", "細明體"),
    ("Noto Serif TC", "Source Han Serif TC"),
    ("Noto Serif TC", "Noto Serif CJK TC"),
    ("Noto Serif CJK TC", "PMingLiU"),
    ("Noto Serif CJK TC", "新細明體"),
    ("Noto Serif CJK TC", "MingLiU"),
    ("Noto Serif CJK TC", "細明體"),
    ("Noto Serif CJK TC", "Source Han Serif TC"),
];

/// macOS fallbacks, laid out as [`WINDOWS_FALLBACKS`]: preinstalled
/// fonts first, then community fonts, then pan-CJK Noto aliases.
pub const MACOS_FALLBACKS: [(&'static str, &'static str); 220] = [
    ("Yu Gothic", "Hiragino Sans"),
    ("Yu Gothic", "Hiragino Kaku Gothic ProN"),
    ("Yu Gothic", "Hiragino Kaku Gothic Pro"),
    ("Yu Gothic UI", "Hiragino Sans"),
    ("Yu Gothic UI", "Hiragino Kaku Gothic ProN"),
    ("Yu Gothic Medium", "Hiragino Sans"),
    ("Yu Gothic Medium", "Hiragino Kaku Gothic ProN"),
    ("Yu Gothic Light", "Hiragino Sans"),
    ("Yu Gothic Light", "Hiragino Kaku Gothic ProN"),
    ("Yu Gothic Bold", "Hiragino Sans"),
    ("Yu Gothic Bold", "Hiragino Kaku Gothic ProN"),
    ("Yu Mincho", "Hiragino Mincho ProN"),
    ("Yu Mincho", "Hiragino Mincho Pro"),
    ("Meiryo", "Hiragino Sans"),
    ("Meiryo", "Hiragino Kaku Gothic ProN"),
    ("Meiryo UI", "Hiragino Sans"),
    ("Meiryo UI", "Hiragino Kaku Gothic ProN"),
    ("MS Gothic", "Hiragino Sans"),
    ("MS Gothic", "Hiragino Kaku Gothic ProN"),
    ("MS PGothic", "Hiragino Sans"),
    ("MS PGothic", "Hiragino Kaku Gothic ProN"),
    ("MS UI Gothic", "Hiragino Sans"),
    ("MS UI Gothic", "Hiragino Kaku Gothic ProN"),
    ("MS Mincho", "Hiragino Mincho ProN"),
    ("MS Mincho", "Hiragino Mincho Pro"),
    ("MS PMincho", "Hiragino Mincho ProN"),
    ("MS PMincho", "Hiragino Mincho Pro"),
    ("ＭＳ Ｐゴシック", "Hiragino Sans"),
    ("ＭＳ Ｐゴシック", "Hiragino Kaku Gothic ProN"),
    ("ＭＳ ゴシック", "Hiragino Sans"),
    ("ＭＳ ゴシック", "Hiragino Kaku Gothic ProN"),
    ("ＭＳ Ｐ明朝", "Hiragino Mincho ProN"),
    ("ＭＳ Ｐ明朝", "Hiragino Mincho Pro"),
    ("ＭＳ 明朝", "Hiragino Mincho ProN"),
    ("ＭＳ 明朝", "Hiragino Mincho Pro"),
    ("游ゴシック", "Hiragino Sans"),
    ("游ゴシック", "Hiragino Kaku Gothic ProN"),
    ("游ゴシック", "Hiragino Kaku Gothic Pro"),
    ("游明朝", "Hiragino Mincho ProN"),
    ("游明朝", "Hiragino Mincho Pro"),
    ("メイリオ", "Hiragino Sans"),
    ("メイリオ", "Hiragino Kaku Gothic ProN"),
    ("Malgun Gothic", "Apple SD Gothic Neo"),
    ("Malgun Gothic", "AppleSDGothicNeo"),
    ("Malgun Gothic", "AppleGothic"),
    ("MalgunGothic", "Apple SD Gothic Neo"),
    ("MalgunGothic", "AppleSDGothicNeo"),
    ("맑은 고딕", "Apple SD Gothic Neo"),
    ("맑은 고딕", "AppleSDGothicNeo"),
    ("맑은 고딕", "AppleGothic"),
    ("Batang", "AppleMyungjo"),
    ("Batang", "Apple Myungjo"),
    ("바탕", "AppleMyungjo"),
    ("바탕", "Apple Myungjo"),
    ("Gulim", "Apple SD Gothic Neo"),
    ("Gulim", "AppleGothic"),
    ("굴림", "Apple SD Gothic Neo"),
    ("굴림", "AppleGothic"),
    ("Dotum", "Apple SD Gothic Neo"),
    ("Dotum", "AppleGothic"),
    ("돋움", "Apple SD Gothic Neo"),
    ("돋움", "AppleGothic"),
    ("HY신명조", "AppleMyungjo"),
    ("HY신명조", "Apple Myungjo"),
    ("HY신명조", "Nanum Myeongjo"),
    ("HY헤드라인M", "Apple SD Gothic Neo"),
    ("HY헤드라인M", "Pretendard Black"),
    ("HY헤드라인M", "Pretendard ExtraBold"),
    ("HY헤드라인M", "AppleGothic"),
    ("HY그래픽M", "Apple SD Gothic Neo"),
    ("HY그래픽M", "Pretendard Bold"),
    ("HY그래픽M", "AppleGothic"),
    ("HY견고딕", "Apple SD Gothic Neo"),
    ("HY견고딕", "Pretendard Black"),
    ("HY견고딕", "AppleGothic"),
    ("KoPub돋움체 Bold", "Apple SD Gothic Neo Bold"),
    ("KoPub돋움체 Bold", "Apple SD Gothic Neo"),
    ("KoPub돋움체 Bold", "Pretendard Bold"),
    ("KoPub돋움체 Medium", "Apple SD Gothic Neo"),
    ("KoPub돋움체 Medium", "Pretendard Medium"),
    ("KoPub돋움체 Light", "Apple SD Gothic Neo Light"),
    ("KoPub돋움체 Light", "Apple SD Gothic Neo"),
    ("KoPub돋움체 Light", "Pretendard Light"),
    ("KoPubWorld돋움체 Bold", "Apple SD Gothic Neo Bold"),
    ("KoPubWorld돋움체 Bold", "Apple SD Gothic Neo"),
    ("KoPubWorld돋움체 Bold", "Pretendard Bold"),
    ("KoPubWorld돋움체 Medium", "Apple SD Gothic Neo"),
    ("KoPubWorld돋움체 Medium", "Pretendard Medium"),
    ("KoPubWorld돋움체 Light", "Apple SD Gothic Neo Light"),
    ("KoPubWorld돋움체 Light", "Apple SD Gothic Neo"),
    ("KoPubWorld돋움체 Light", "Pretendard Light"),
    ("Source Han Sans KR", "Source Han Sans K VF"),
    ("Source Han Sans KR", "Source Han Sans K"),
    ("Source Han Sans KR", "본고딕 VF"),
    ("Source Han Sans KR", "본고딕"),
    ("Source Han Sans K", "Source Han Sans K VF"),
    ("Source Han Sans K", "본고딕 VF"),
    ("본고딕", "본고딕 VF"),
    ("본고딕", "Source Han Sans K VF"),
    ("-윤고딕340", "Apple SD Gothic Neo"),
    ("-윤고딕340", "Pretendard"),
    ("-윤고딕340", "Spoqa Han Sans Neo Medium"),
    ("Rix모던고딕 B", "Apple SD Gothic Neo Bold"),
    ("Rix모던고딕 B", "Pretendard Bold"),
    ("Rix모던고딕 B", "Spoqa Han Sans Neo Bold"),
    ("Monotype Sorts", "Wingdings"),
    ("Monotype Sorts", "Wingdings 2"),
    ("Monotype Sorts", "Apple Symbols"),
    ("Microsoft YaHei", "PingFang SC"),
    ("Microsoft YaHei", "Heiti SC"),
    ("Microsoft YaHei", "STHeiti"),
    ("Microsoft YaHei UI", "PingFang SC"),
    ("Microsoft YaHei UI", "Heiti SC"),
    ("微软雅黑", "PingFang SC"),
    ("微软雅黑", "Heiti SC"),
    ("微软雅黑", "STHeiti"),
    ("SimSun", "Songti SC"),
    ("SimSun", "STSong"),
    ("宋体", "Songti SC"),
    ("宋体", "STSong"),
    ("SimHei", "PingFang SC"),
    ("SimHei", "Heiti SC"),
    ("SimHei", "STHeiti"),
    ("黑体", "PingFang SC"),
    ("黑体", "Heiti SC"),
    ("Microsoft JhengHei", "PingFang TC"),
    ("Microsoft JhengHei", "PingFang HK"),
    ("Microsoft JhengHei", "Heiti TC"),
    ("Microsoft JhengHei UI", "PingFang TC"),
    ("Microsoft JhengHei UI", "Heiti TC"),
    ("微軟正黑體", "PingFang TC"),
    ("微軟正黑體", "PingFang HK"),
    ("微軟正黑體", "Heiti TC"),
    ("PMingLiU", "Songti TC"),
    ("PMingLiU", "LiSong Pro"),
    ("PMingLiU", "BiauKai"),
    ("新細明體", "Songti TC"),
    ("新細明體", "LiSong Pro"),
    ("MingLiU", "Songti TC"),
    ("MingLiU", "LiSong Pro"),
    ("細明體", "Songti TC"),
    ("細明體", "LiSong Pro"),
    ("Noto Sans JP", "Hiragino Sans"),
    ("Noto Sans JP", "Hiragino Kaku Gothic ProN"),
    ("Noto Sans JP", "Hiragino Kaku Gothic Pro"),
    ("Noto Sans JP", "Source Han Sans JP"),
    ("Noto Sans JP", "Noto Sans CJK JP"),
    ("Noto Sans CJK JP", "Hiragino Sans"),
    ("Noto Sans CJK JP", "Hiragino Kaku Gothic ProN"),
    ("Noto Sans CJK JP", "Hiragino Kaku Gothic Pro"),
    ("Noto Sans CJK JP", "Source Han Sans JP"),
    ("Noto Serif JP", "Hiragino Mincho ProN"),
    ("Noto Serif JP", "Hiragino Mincho Pro"),
    ("Noto Serif JP", "Source Han Serif JP"),
    ("Noto Serif JP", "Noto Serif CJK JP"),
    ("Noto Serif CJK JP", "Hiragino Mincho ProN"),
    ("Noto Serif CJK JP", "Hiragino Mincho Pro"),
    ("Noto Serif CJK JP", "Source Han Serif JP"),
    ("Noto Sans KR", "Apple SD Gothic Neo"),
    ("Noto Sans KR", "AppleSDGothicNeo"),
    ("Noto Sans KR", "AppleGothic"),
    ("Noto Sans KR", "Pretendard"),
    ("Noto Sans KR", "Pretendard Variable"),
    ("Noto Sans KR", "NanumGothic"),
    ("Noto Sans KR", "NanumBarunGothic"),
    ("Noto Sans KR", "Source Han Sans KR"),
    ("Noto Sans KR", "Noto Sans CJK KR"),
    ("Noto Sans CJK KR", "Apple SD Gothic Neo"),
    ("Noto Sans CJK KR", "AppleSDGothicNeo"),
    ("Noto Sans CJK KR", "AppleGothic"),
    ("Noto Sans CJK KR", "Pretendard"),
    ("Noto Sans CJK KR", "Pretendard Variable"),
    ("Noto Sans CJK KR", "NanumGothic"),
    ("Noto Sans CJK KR", "NanumBarunGothic"),
    ("Noto Sans CJK KR", "Source Han Sans KR"),
    ("Noto Serif KR", "AppleMyungjo"),
    ("Noto Serif KR", "Apple Myungjo"),
    ("Noto Serif KR", "NanumMyeongjo"),
    ("Noto Serif KR", "Nanum Myeongjo"),
    ("Noto Serif KR", "Source Han Serif KR"),
    ("Noto Serif KR", "Noto Serif CJK KR"),
    ("Noto Serif CJK KR", "AppleMyungjo"),
    ("Noto Serif CJK KR", "Apple Myungjo"),
    ("Noto Serif CJK KR", "NanumMyeongjo"),
    ("Noto Serif CJK KR", "Nanum Myeongjo"),
    ("Noto Serif CJK KR", "Source Han Serif KR"),
    ("Noto Sans SC", "PingFang SC"),
    ("Noto Sans SC", "Heiti SC"),
    ("Noto Sans SC", "STHeiti"),
    ("Noto Sans SC", "Source Han Sans SC"),
    ("Noto Sans SC", "Noto Sans CJK SC"),
    ("Noto Sans CJK SC", "PingFang SC"),
    ("Noto Sans CJK SC", "Heiti SC"),
    ("Noto Sans CJK SC", "STHeiti"),
    ("Noto Sans CJK SC", "Source Han Sans SC"),
    ("Noto Serif SC", "Songti SC"),
    ("Noto Serif SC", "STSong"),
    ("Noto Serif SC", "Source Han Serif SC"),
    ("Noto Serif SC", "Noto Serif CJK SC"),
    ("Noto Serif CJK SC", "Songti SC"),
    ("Noto Serif CJK SC", "STSong"),
    ("Noto Serif CJK SC", "Source Han Serif SC"),
    ("Noto Sans TC", "PingFang TC"),
    ("Noto Sans TC", "PingFang HK"),
    ("Noto Sans TC", "Heiti TC"),
    ("Noto Sans TC", "Source Han Sans TC"),
    ("Noto Sans TC", "Noto Sans CJK TC"),
    ("Noto Sans CJK TC", "PingFang TC"),
    ("Noto Sans CJK TC", "PingFang HK"),
    ("Noto Sans CJK TC", "Heiti TC"),
    ("Noto Sans CJK TC", "Source Han Sans TC"),
    ("Noto Serif TC", "Songti TC"),
    ("Noto Serif TC", "LiSong Pro"),
    ("Noto Serif TC", "BiauKai"),
    ("Noto Serif TC", "Source Han Serif TC"),
    ("Noto Serif TC", "Noto Serif CJK TC"),
    ("Noto Serif CJK TC", "Songti TC"),
    ("Noto Serif CJK TC", "LiSong Pro"),
    ("Noto Serif CJK TC", "BiauKai"),
    ("Noto Serif CJK TC", "Source Han Serif TC"),
];

/// Linux fallbacks, laid out as [`WINDOWS_FALLBACKS`]: Noto, Source
/// Han, IPA, WenQuanYi and Nanum families.
pub const LINUX_FALLBACKS: [(&'static str, &'static str); 112] = [
    ("Yu Gothic", "Noto Sans CJK JP"),
    ("Yu Gothic", "Source Han Sans JP"),
    ("Yu Gothic", "IPAGothic"),
    ("Yu Gothic UI", "Noto Sans CJK JP"),
    ("Yu Gothic UI", "Source Han Sans JP"),
    ("Yu Mincho", "Noto Serif CJK JP"),
    ("Yu Mincho", "Source Han Serif JP"),
    ("Yu Mincho", "IPAMincho"),
    ("Meiryo", "Noto Sans CJK JP"),
    ("Meiryo", "Source Han Sans JP"),
    ("Meiryo", "IPAGothic"),
    ("MS Gothic", "Noto Sans CJK JP"),
    ("MS Gothic", "Source Han Sans JP"),
    ("MS Gothic", "IPAGothic"),
    ("MS Mincho", "Noto Serif CJK JP"),
    ("MS Mincho", "Source Han Serif JP"),
    ("MS Mincho", "IPAMincho"),
    ("ＭＳ Ｐゴシック", "Noto Sans CJK JP"),
    ("ＭＳ Ｐゴシック", "Source Han Sans JP"),
    ("ＭＳ Ｐゴシック", "IPAGothic"),
    ("ＭＳ ゴシック", "Noto Sans CJK JP"),
    ("ＭＳ ゴシック", "Source Han Sans JP"),
    ("ＭＳ ゴシック", "IPAGothic"),
    ("ＭＳ Ｐ明朝", "Noto Serif CJK JP"),
    ("ＭＳ Ｐ明朝", "Source Han Serif JP"),
    ("ＭＳ Ｐ明朝", "IPAMincho"),
    ("ＭＳ 明朝", "Noto Serif CJK JP"),
    ("ＭＳ 明朝", "Source Han Serif JP"),
    ("ＭＳ 明朝", "IPAMincho"),
    ("游ゴシック", "Noto Sans CJK JP"),
    ("游ゴシック", "Source Han Sans JP"),
    ("游ゴシック", "IPAGothic"),
    ("游明朝", "Noto Serif CJK JP"),
    ("游明朝", "Source Han Serif JP"),
    ("游明朝", "IPAMincho"),
    ("メイリオ", "Noto Sans CJK JP"),
    ("メイリオ", "Source Han Sans JP"),
    ("メイリオ", "IPAGothic"),
    ("Malgun Gothic", "Noto Sans CJK KR"),
    ("Malgun Gothic", "Source Han Sans KR"),
    ("Malgun Gothic", "NanumGothic"),
    ("맑은 고딕", "Noto Sans CJK KR"),
    ("맑은 고딕", "Source Han Sans KR"),
    ("맑은 고딕", "NanumGothic"),
    ("Batang", "Noto Serif CJK KR"),
    ("Batang", "Source Han Serif KR"),
    ("Batang", "NanumMyeongjo"),
    ("Microsoft YaHei", "Noto Sans CJK SC"),
    ("Microsoft YaHei", "Source Han Sans SC"),
    ("Microsoft YaHei", "WenQuanYi Micro Hei"),
    ("微软雅黑", "Noto Sans CJK SC"),
    ("微软雅黑", "Source Han Sans SC"),
    ("SimSun", "Noto Serif CJK SC"),
    ("SimSun", "Source Han Serif SC"),
    ("SimHei", "Noto Sans CJK SC"),
    ("SimHei", "Source Han Sans SC"),
    ("Microsoft JhengHei", "Noto Sans CJK TC"),
    ("Microsoft JhengHei", "Source Han Sans TC"),
    ("微軟正黑體", "Noto Sans CJK TC"),
    ("微軟正黑體", "Source Han Sans TC"),
    ("PMingLiU", "Noto Serif CJK TC"),
    ("PMingLiU", "Source Han Serif TC"),
    ("MingLiU", "Noto Serif CJK TC"),
    ("MingLiU", "Source Han Serif TC"),
    ("Noto Sans JP", "Source Han Sans JP"),
    ("Noto Sans JP", "IPAGothic"),
    ("Noto Sans JP", "IPAexGothic"),
    ("Noto Sans JP", "Noto Sans CJK JP"),
    ("Noto Sans CJK JP", "Source Han Sans JP"),
    ("Noto Sans CJK JP", "IPAGothic"),
    ("Noto Sans CJK JP", "IPAexGothic"),
    ("Noto Serif JP", "Source Han Serif JP"),
    ("Noto Serif JP", "IPAMincho"),
    ("Noto Serif JP", "IPAexMincho"),
    ("Noto Serif JP", "Noto Serif CJK JP"),
    ("Noto Serif CJK JP", "Source Han Serif JP"),
    ("Noto Serif CJK JP", "IPAMincho"),
    ("Noto Serif CJK JP", "IPAexMincho"),
    ("Noto Sans KR", "Source Han Sans KR"),
    ("Noto Sans KR", "Pretendard"),
    ("Noto Sans KR", "NanumGothic"),
    ("Noto Sans KR", "NanumBarunGothic"),
    ("Noto Sans KR", "Noto Sans CJK KR"),
    ("Noto Sans CJK KR", "Source Han Sans KR"),
    ("Noto Sans CJK KR", "Pretendard"),
    ("Noto Sans CJK KR", "NanumGothic"),
    ("Noto Sans CJK KR", "NanumBarunGothic"),
    ("Noto Serif KR", "Source Han Serif KR"),
    ("Noto Serif KR", "NanumMyeongjo"),
    ("Noto Serif KR", "Noto Serif CJK KR"),
    ("Noto Serif CJK KR", "Source Han Serif KR"),
    ("Noto Serif CJK KR", "NanumMyeongjo"),
    ("Noto Sans SC", "Source Han Sans SC"),
    ("Noto Sans SC", "WenQuanYi Zen Hei"),
    ("Noto Sans SC", "WenQuanYi Micro Hei"),
    ("Noto Sans SC", "Noto Sans CJK SC"),
    ("Noto Sans CJK SC", "Source Han Sans SC"),
    ("Noto Sans CJK SC", "WenQuanYi Zen Hei"),
    ("Noto Sans CJK SC", "WenQuanYi Micro Hei"),
    ("Noto Serif SC", "Source Han Serif SC"),
    ("Noto Serif SC", "Noto Serif CJK SC"),
    ("Noto Serif CJK SC", "Source Han Serif SC"),
    ("Noto Sans TC", "Source Han Sans TC"),
    ("Noto Sans TC", "WenQuanYi Zen Hei"),
    ("Noto Sans TC", "WenQuanYi Micro Hei"),
    ("Noto Sans TC", "Noto Sans CJK TC"),
    ("Noto Sans CJK TC", "Source Han Sans TC"),
    ("Noto Sans CJK TC", "WenQuanYi Zen Hei"),
    ("Noto Sans CJK TC", "WenQuanYi Micro Hei"),
    ("Noto Serif TC", "Source Han Serif TC"),
    ("Noto Serif TC", "Noto Serif CJK TC"),
    ("Noto Serif CJK TC", "Source Han Serif TC"),
];

/// The fallbacks that `table` lists for `name`, in table order.
pub open spec fn chain_for(t: Seq<(&str, &str)>, name: Seq<char>) -> Seq<Seq<char>>
    decreases t.len(),
{
    if t.len() == 0 {
        Seq::empty()
    } else if t.last().0@ == name {
        chain_for(t.drop_last(), name).push(t.last().1@)
    } else {
        chain_for(t.drop_last(), name)
    }
}

/// `acc` followed by the items of `s` that are not already present,
/// each kept at its first occurrence.
pub open spec fn append_unseen(acc: Seq<Seq<char>>, s: Seq<Seq<char>>) -> Seq<Seq<char>>
    decreases s.len(),
{
    if s.len() == 0 {
        acc
    } else {
        let d = append_unseen(acc, s.drop_last());
        if d.contains(s.last()) {
            d
        } else {
            d.push(s.last())
        }
    }
}

/// The unified chain for `name`: Windows, then macOS, then Linux
/// fallbacks, each name at its first occurrence.
pub open spec fn unified_chain(name: Seq<char>) -> Seq<Seq<char>> {
    append_unseen(
        append_unseen(
            append_unseen(Seq::empty(), chain_for(WINDOWS_FALLBACKS@, name)),
            chain_for(MACOS_FALLBACKS@, name),
        ),
        chain_for(LINUX_FALLBACKS@, name),
    )
}

/// The characters of each name.
pub open spec fn names_view(v: Seq<&str>) -> Seq<Seq<char>> {
    v.map_values(|s: &str| s@)
}

/// Whether `name` is among `out`.
fn contains_name(out: &Vec<&'static str>, name: &str) -> (r: bool)
    ensures
        r == names_view(out@).contains(name@),
{
    let mut j: usize = 0;
    while j < out.len()
        invariant
            j <= out.len(),
            forall|k: int| 0 <= k < j ==> out@[k]@ != name@,
        decreases out.len() - j,
    {
        if str_eq(out[j], name) {
            assert(names_view(out@)[j as int] == name@);
            return true;
        }
        j = j + 1;
    }
    proof {
        if names_view(out@).contains(name@) {
            let k = choose|k: int| 0 <= k < names_view(out@).len() && names_view(out@)[k] == name@;
            assert(out@[k]@ == name@);
        }
    }
    false
}

/// Appends to `out` the fallbacks `table` lists for `name` that `out`
/// does not hold yet.
fn push_chain(out: &mut Vec<&'static str>, table: &[(&'static str, &'static str)], name: &str)
    ensures
        names_view(final(out)@) == append_unseen(names_view(old(out)@), chain_for(table@, name@)),
{
    let ghost start = names_view(out@);
    let mut i: usize = 0;
    proof {
        assert(table@.take(0) =~= Seq::<(&str, &str)>::empty());
    }
    while i < table.len()
        invariant
            i <= table.len(),
            names_view(out@) == append_unseen(start, chain_for(table@.take(i as int), name@)),
        decreases table.len() - i,
    {
        let (key, fallback) = table[i];
        let ghost before = chain_for(table@.take(i as int), name@);
        proof {
            assert(table@.take(i + 1).drop_last() =~= table@.take(i as int));
            assert(table@.take(i + 1).last() == table@[i as int]);
        }
        if str_eq(key, name) {
            assert(chain_for(table@.take(i + 1), name@) == before.push(fallback@));
            assert(before.push(fallback@).drop_last() =~= before);
            if !contains_name(out, fallback) {
                out.push(fallback);
                assert(names_view(out@) =~= append_unseen(start, before).push(fallback@));
            }
        } else {
            assert(chain_for(table@.take(i + 1), name@) == before);
        }
        i = i + 1;
    }
    proof {
        assert(table@.take(table.len() as int) =~= table@);
    }
}

/// The unified CJK fallback chain for `mapped_font_name`: the
/// Windows-native fallbacks, then the macOS ones, then the Linux ones,
/// each name once, at its first occurrence. `platform` does not change
/// the chain.
pub fn get_cjk_fallback_fonts(platform: CjkPlatform, mapped_font_name: &str) -> (r: Vec<&'static str>)
    ensures
        names_view(r@) == unified_chain(mapped_font_name@),
{
    let mut out: Vec<&'static str> = Vec::new();
    assert(names_view(out@) =~= Seq::<Seq<char>>::empty());
    push_chain(&mut out, &WINDOWS_FALLBACKS, mapped_font_name);
    push_chain(&mut out, &MACOS_FALLBACKS, mapped_font_name);
    push_chain(&mut out, &LINUX_FALLBACKS, mapped_font_name);
    out
}

/// Appending unseen items keeps `acc` as a prefix, holds exactly the
/// items of `acc` and `s`, and adds no duplicate.
pub proof fn law_append_unseen(acc: Seq<Seq<char>>, s: Seq<Seq<char>>)
    ensures
        append_unseen(acc, s).len() >= acc.len(),
        append_unseen(acc, s).take(acc.len() as int) == acc,
        forall|x: Seq<char>|
            #[trigger] append_unseen(acc, s).contains(x) <==> (acc.contains(x) || s.contains(x)),
        acc.no_duplicates() ==> append_unseen(acc, s).no_duplicates(),
    decreases s.len(),
{
    if s.len() > 0 {
        let t = s.drop_last();
        law_append_unseen(acc, t);
        let d = append_unseen(acc, t);
        assert forall|x: Seq<char>| #[trigger] append_unseen(acc, s).contains(x) <==> (acc.contains(x)
            || s.contains(x)) by {
            if s.contains(x) {
                let k = choose|k: int| 0 <= k < s.len() && s[k] == x;
                if k < s.len() - 1 {
                    assert(t[k] == x);
                    assert(t.contains(x));
                }
            }
            if t.contains(x) {
                let k = choose|k: int| 0 <= k < t.len() && t[k] == x;
                assert(s[k] == x);
            }
            if !d.contains(s.last()) {
                if d.push(s.last()).contains(x) && x != s.last() {
                    let k = choose|k: int| 0 <= k < d.push(s.last()).len() && d.push(s.last())[k] == x;
                    assert(d[k] == x);
                }
                if d.contains(x) {
                    let k = choose|k: int| 0 <= k < d.len() && d[k] == x;
                    assert(d.push(s.last())[k] == x);
                }
                assert(d.push(s.last())[d.len() as int] == s.last());
            }
        }
        if !d.contains(s.last()) {
            assert(d.push(s.last()).take(acc.len() as int) =~= d.take(acc.len() as int));
            if acc.no_duplicates() {
                assert forall|i: int, j: int|
                    0 <= i < d.push(s.last()).len() && 0 <= j < d.push(s.last()).len() && i != j
                        implies d.push(s.last())[i] != d.push(s.last())[j] by {
                    if i == d.len() as int {
                        assert(d[j] == d.push(s.last())[j]);
                    } else if j == d.len() as int {
                        assert(d[i] == d.push(s.last())[i]);
                    }
                }
            }
        }
    }
}

/// The unified chain names each fallback once, holds exactly the
/// fallbacks that some platform lists for `name`, and begins with the
/// Windows-native ones.
pub proof fn law_unified_chain(name: Seq<char>)
    ensures
        unified_chain(name).no_duplicates(),
        forall|x: Seq<char>|
            #[trigger] unified_chain(name).contains(x) <==> (chain_for(WINDOWS_FALLBACKS@, name).contains(x)
                || chain_for(MACOS_FALLBACKS@, name).contains(x) || chain_for(
                LINUX_FALLBACKS@,
                name,
            ).contains(x)),
        unified_chain(name).take(
            append_unseen(Seq::empty(), chain_for(WINDOWS_FALLBACKS@, name)).len() as int,
        ) == append_unseen(Seq::empty(), chain_for(WINDOWS_FALLBACKS@, name)),
{
    let w = chain_for(WINDOWS_FALLBACKS@, name);
    let m = chain_for(MACOS_FALLBACKS@, name);
    let l = chain_for(LINUX_FALLBACKS@, name);
    let e = Seq::<Seq<char>>::empty();
    law_append_unseen(e, w);
    let a = append_unseen(e, w);
    law_append_unseen(a, m);
    let b = append_unseen(a, m);
    law_append_unseen(b, l);
    let c = append_unseen(b, l);
    assert(c.take(a.len() as int) =~= c.take(b.len() as int).take(a.len() as int));
}

} // verus!
