//! Fallback font metrics keyed by open-source family name.
//!
//! A PPTX typeface resolves by a direct match against an open family
//! name (`Carlito`, `Arimo`, `Noto Sans JP`, ...) and otherwise through
//! the default font mapping, whose target is then looked up here. Carlito,
//! Arimo, Tinos and Noto Sans JP carry per-character widths for ASCII and
//! Latin-1; Cousine (monospace), Caladea and the other Noto CJK faces
//! carry scalar metrics only.
use vstd::prelude::*;

use crate::mapping::{default_font_mapping, default_mapping_view, get_mapped_font, mapped_font};
use crate::strmap::string_map_view;
use crate::script::{cjk_cp, in_range, is_cjk_codepoint, is_halfwidth_cjk_codepoint, is_narrow_latin, narrow_latin_cp};
use crate::strs::{str_chars, str_eq};

verus! {

/// Carlito (Calibri-compatible) advance widths, ascending by character.
pub const CARLITO_WIDTHS: [(char, u16); 190] = [
    (' ', 463),
    ('!', 667),
    ('"', 821),
    ('#', 1020),
    ('$', 1038),
    ('%', 1464),
    ('&', 1397),
    ('\'', 452),
    ('(', 621),
    (')', 621),
    ('*', 1020),
    ('+', 1020),
    (',', 511),
    ('-', 627),
    ('.', 517),
    ('/', 791),
    ('0', 1038),
    ('1', 1038),
    ('2', 1038),
    ('3', 1038),
    ('4', 1038),
    ('5', 1038),
    ('6', 1038),
    ('7', 1038),
    ('8', 1038),
    ('9', 1038),
    (':', 548),
    (';', 548),
    ('<', 1020),
    ('=', 1020),
    ('>', 1020),
    ('?', 949),
    ('@', 1831),
    ('A', 1185),
    ('B', 1114),
    ('C', 1092),
    ('D', 1260),
    ('E', 1000),
    ('F', 941),
    ('G', 1292),
    ('H', 1276),
    ('I', 516),
    ('J', 653),
    ('K', 1064),
    ('L', 861),
    ('M', 1751),
    ('N', 1322),
    ('O', 1356),
    ('P', 1058),
    ('Q', 1378),
    ('R', 1112),
    ('S', 941),
    ('T', 998),
    ('U', 1314),
    ('V', 1162),
    ('W', 1822),
    ('X', 1063),
    ('Y', 998),
    ('Z', 959),
    ('[', 628),
    ('\\', 791),
    (']', 628),
    ('^', 1020),
    ('_', 1020),
    ('`', 596),
    ('a', 981),
    ('b', 1076),
    ('c', 866),
    ('d', 1076),
    ('e', 1019),
    ('f', 625),
    ('g', 964),
    ('h', 1076),
    ('i', 470),
    ('j', 490),
    ('k', 931),
    ('l', 470),
    ('m', 1636),
    ('n', 1076),
    ('o', 1080),
    ('p', 1076),
    ('q', 1076),
    ('r', 714),
    ('s', 801),
    ('t', 686),
    ('u', 1076),
    ('v', 925),
    ('w', 1464),
    ('x', 887),
    ('y', 927),
    ('z', 809),
    ('{', 644),
    ('|', 943),
    ('}', 644),
    ('~', 1020),
    ('\u{00a0}', 463),
    ('\u{00a1}', 667),
    ('\u{00a2}', 1020),
    ('\u{00a3}', 1038),
    ('\u{00a4}', 1020),
    ('\u{00a5}', 1038),
    ('\u{00a6}', 1020),
    ('\u{00a7}', 1020),
    ('\u{00a8}', 804),
    ('\u{00a9}', 1709),
    ('\u{00aa}', 824),
    ('\u{00ab}', 1049),
    ('\u{00ac}', 1020),
    ('\u{00ae}', 1038),
    ('\u{00af}', 807),
    ('\u{00b0}', 694),
    ('\u{00b1}', 1020),
    ('\u{00b2}', 688),
    ('\u{00b3}', 685),
    ('\u{00b4}', 598),
    ('\u{00b5}', 1126),
    ('\u{00b6}', 1200),
    ('\u{00b7}', 517),
    ('\u{00b8}', 629),
    ('\u{00b9}', 504),
    ('\u{00ba}', 865),
    ('\u{00bb}', 1049),
    ('\u{00bc}', 1303),
    ('\u{00bd}', 1375),
    ('\u{00be}', 1383),
    ('\u{00bf}', 949),
    ('\u{00c0}', 1185),
    ('\u{00c1}', 1185),
    ('\u{00c2}', 1185),
    ('\u{00c3}', 1185),
    ('\u{00c4}', 1185),
    ('\u{00c5}', 1185),
    ('\u{00c6}', 1563),
    ('\u{00c7}', 1092),
    ('\u{00c8}', 1000),
    ('\u{00c9}', 1000),
    ('\u{00ca}', 1000),
    ('\u{00cb}', 1000),
    ('\u{00cc}', 516),
    ('\u{00cd}', 516),
    ('\u{00ce}', 516),
    ('\u{00cf}', 516),
    ('\u{00d0}', 1279),
    ('\u{00d1}', 1322),
    ('\u{00d2}', 1356),
    ('\u{00d3}', 1356),
    ('\u{00d4}', 1356),
    ('\u{00d5}', 1356),
    ('\u{00d6}', 1356),
    ('\u{00d7}', 1020),
    ('\u{00d8}', 1359),
    ('\u{00d9}', 1314),
    ('\u{00da}', 1314),
    ('\u{00db}', 1314),
    ('\u{00dc}', 1314),
    ('\u{00dd}', 998),
    ('\u{00de}', 1058),
    ('\u{00df}', 1080),
    ('\u{00e0}', 981),
    ('\u{00e1}', 981),
    ('\u{00e2}', 981),
    ('\u{00e3}', 981),
    ('\u{00e4}', 981),
    ('\u{00e5}', 981),
    ('\u{00e6}', 1583),
    ('\u{00e7}', 866),
    ('\u{00e8}', 1019),
    ('\u{00e9}', 1019),
    ('\u{00ea}', 1019),
    ('\u{00eb}', 1019),
    ('\u{00ec}', 470),
    ('\u{00ed}', 470),
    ('\u{00ee}', 470),
    ('\u{00ef}', 470),
    ('\u{00f0}', 1076),
    ('\u{00f1}', 1076),
    ('\u{00f2}', 1080),
    ('\u{00f3}', 1080),
    ('\u{00f4}', 1080),
    ('\u{00f5}', 1080),
    ('\u{00f6}', 1080),
    ('\u{00f7}', 1020),
    ('\u{00f8}', 1084),
    ('\u{00f9}', 1076),
    ('\u{00fa}', 1076),
    ('\u{00fb}', 1076),
    ('\u{00fc}', 1076),
    ('\u{00fd}', 927),
    ('\u{00fe}', 1076),
    ('\u{00ff}', 927),
];

/// Arimo (Arial / Helvetica-compatible) advance widths, from its metric
/// twin Liberation Sans, ascending by character.
pub const ARIMO_WIDTHS: [(char, u16); 191] = [
    (' ', 569),
    ('!', 569),
    ('"', 727),
    ('#', 1139),
    ('$', 1139),
    ('%', 1821),
    ('&', 1366),
    ('\'', 391),
    ('(', 682),
    (')', 682),
    ('*', 797),
    ('+', 1196),
    (',', 569),
    ('-', 682),
    ('.', 569),
    ('/', 569),
    ('0', 1139),
    ('1', 1139),
    ('2', 1139),
    ('3', 1139),
    ('4', 1139),
    ('5', 1139),
    ('6', 1139),
    ('7', 1139),
    ('8', 1139),
    ('9', 1139),
    (':', 569),
    (';', 569),
    ('<', 1196),
    ('=', 1196),
    ('>', 1196),
    ('?', 1139),
    ('@', 2079),
    ('A', 1366),
    ('B', 1366),
    ('C', 1479),
    ('D', 1479),
    ('E', 1366),
    ('F', 1251),
    ('G', 1593),
    ('H', 1479),
    ('I', 569),
    ('J', 1024),
    ('K', 1366),
    ('L', 1139),
    ('M', 1706),
    ('N', 1479),
    ('O', 1593),
    ('P', 1366),
    ('Q', 1593),
    ('R', 1479),
    ('S', 1366),
    ('T', 1251),
    ('U', 1479),
    ('V', 1366),
    ('W', 1933),
    ('X', 1366),
    ('Y', 1366),
    ('Z', 1251),
    ('[', 569),
    ('\\', 569),
    (']', 569),
    ('^', 961),
    ('_', 1139),
    ('`', 682),
    ('a', 1139),
    ('b', 1139),
    ('c', 1024),
    ('d', 1139),
    ('e', 1139),
    ('f', 569),
    ('g', 1139),
    ('h', 1139),
    ('i', 455),
    ('j', 455),
    ('k', 1024),
    ('l', 455),
    ('m', 1706),
    ('n', 1139),
    ('o', 1139),
    ('p', 1139),
    ('q', 1139),
    ('r', 682),
    ('s', 1024),
    ('t', 569),
    ('u', 1139),
    ('v', 1024),
    ('w', 1479),
    ('x', 1024),
    ('y', 1024),
    ('z', 1024),
    ('{', 684),
    ('|', 532),
    ('}', 684),
    ('~', 1196),
    ('\u{00a0}', 569),
    ('\u{00a1}', 682),
    ('\u{00a2}', 1139),
    ('\u{00a3}', 1139),
    ('\u{00a4}', 1139),
    ('\u{00a5}', 1139),
    ('\u{00a6}', 532),
    ('\u{00a7}', 1139),
    ('\u{00a8}', 682),
    ('\u{00a9}', 1509),
    ('\u{00aa}', 758),
    ('\u{00ab}', 1139),
    ('\u{00ac}', 1196),
    ('\u{00ad}', 682),
    ('\u{00ae}', 1509),
    ('\u{00af}', 1131),
    ('\u{00b0}', 819),
    ('\u{00b1}', 1124),
    ('\u{00b2}', 682),
    ('\u{00b3}', 682),
    ('\u{00b4}', 682),
    ('\u{00b5}', 1180),
    ('\u{00b6}', 1100),
    ('\u{00b7}', 682),
    ('\u{00b8}', 682),
    ('\u{00b9}', 682),
    ('\u{00ba}', 748),
    ('\u{00bb}', 1139),
    ('\u{00bc}', 1708),
    ('\u{00bd}', 1708),
    ('\u{00be}', 1708),
    ('\u{00bf}', 1251),
    ('\u{00c0}', 1366),
    ('\u{00c1}', 1366),
    ('\u{00c2}', 1366),
    ('\u{00c3}', 1366),
    ('\u{00c4}', 1366),
    ('\u{00c5}', 1366),
    ('\u{00c6}', 2048),
    ('\u{00c7}', 1479),
    ('\u{00c8}', 1366),
    ('\u{00c9}', 1366),
    ('\u{00ca}', 1366),
    ('\u{00cb}', 1366),
    ('\u{00cc}', 569),
    ('\u{00cd}', 569),
    ('\u{00ce}', 569),
    ('\u{00cf}', 569),
    ('\u{00d0}', 1479),
    ('\u{00d1}', 1479),
    ('\u{00d2}', 1593),
    ('\u{00d3}', 1593),
    ('\u{00d4}', 1593),
    ('\u{00d5}', 1593),
    ('\u{00d6}', 1593),
    ('\u{00d7}', 1196),
    ('\u{00d8}', 1593),
    ('\u{00d9}', 1479),
    ('\u{00da}', 1479),
    ('\u{00db}', 1479),
    ('\u{00dc}', 1479),
    ('\u{00dd}', 1366),
    ('\u{00de}', 1366),
    ('\u{00df}', 1251),
    ('\u{00e0}', 1139),
    ('\u{00e1}', 1139),
    ('\u{00e2}', 1139),
    ('\u{00e3}', 1139),
    ('\u{00e4}', 1139),
    ('\u{00e5}', 1139),
    ('\u{00e6}', 1821),
    ('\u{00e7}', 1024),
    ('\u{00e8}', 1139),
    ('\u{00e9}', 1139),
    ('\u{00ea}', 1139),
    ('\u{00eb}', 1139),
    ('\u{00ec}', 569),
    ('\u{00ed}', 569),
    ('\u{00ee}', 569),
    ('\u{00ef}', 569),
    ('\u{00f0}', 1139),
    ('\u{00f1}', 1139),
    ('\u{00f2}', 1139),
    ('\u{00f3}', 1139),
    ('\u{00f4}', 1139),
    ('\u{00f5}', 1139),
    ('\u{00f6}', 1139),
    ('\u{00f7}', 1124),
    ('\u{00f8}', 1251),
    ('\u{00f9}', 1139),
    ('\u{00fa}', 1139),
    ('\u{00fb}', 1139),
    ('\u{00fc}', 1139),
    ('\u{00fd}', 1024),
    ('\u{00fe}', 1139),
    ('\u{00ff}', 1024),
];

/// Tinos (Times-compatible) advance widths, from its metric twin
/// Liberation Serif, ascending by character.
pub const TINOS_WIDTHS: [(char, u16); 191] = [
    (' ', 512),
    ('!', 682),
    ('"', 836),
    ('#', 1024),
    ('$', 1024),
    ('%', 1706),
    ('&', 1593),
    ('\'', 369),
    ('(', 682),
    (')', 682),
    ('*', 1024),
    ('+', 1155),
    (',', 512),
    ('-', 682),
    ('.', 512),
    ('/', 569),
    ('0', 1024),
    ('1', 1024),
    ('2', 1024),
    ('3', 1024),
    ('4', 1024),
    ('5', 1024),
    ('6', 1024),
    ('7', 1024),
    ('8', 1024),
    ('9', 1024),
    (':', 569),
    (';', 569),
    ('<', 1155),
    ('=', 1155),
    ('>', 1155),
    ('?', 909),
    ('@', 1886),
    ('A', 1479),
    ('B', 1366),
    ('C', 1366),
    ('D', 1479),
    ('E', 1251),
    ('F', 1139),
    ('G', 1479),
    ('H', 1479),
    ('I', 682),
    ('J', 797),
    ('K', 1479),
    ('L', 1251),
    ('M', 1821),
    ('N', 1479),
    ('O', 1479),
    ('P', 1139),
    ('Q', 1479),
    ('R', 1366),
    ('S', 1139),
    ('T', 1251),
    ('U', 1479),
    ('V', 1479),
    ('W', 1933),
    ('X', 1479),
    ('Y', 1479),
    ('Z', 1251),
    ('[', 682),
    ('\\', 569),
    (']', 682),
    ('^', 961),
    ('_', 1024),
    ('`', 682),
    ('a', 909),
    ('b', 1024),
    ('c', 909),
    ('d', 1024),
    ('e', 909),
    ('f', 682),
    ('g', 1024),
    ('h', 1024),
    ('i', 569),
    ('j', 569),
    ('k', 1024),
    ('l', 569),
    ('m', 1593),
    ('n', 1024),
    ('o', 1024),
    ('p', 1024),
    ('q', 1024),
    ('r', 682),
    ('s', 797),
    ('t', 569),
    ('u', 1024),
    ('v', 1024),
    ('w', 1479),
    ('x', 1024),
    ('y', 1024),
    ('z', 909),
    ('{', 983),
    ('|', 410),
    ('}', 983),
    ('~', 1108),
    ('\u{00a0}', 512),
    ('\u{00a1}', 682),
    ('\u{00a2}', 1024),
    ('\u{00a3}', 1024),
    ('\u{00a4}', 1024),
    ('\u{00a5}', 1024),
    ('\u{00a6}', 410),
    ('\u{00a7}', 1024),
    ('\u{00a8}', 682),
    ('\u{00a9}', 1556),
    ('\u{00aa}', 565),
    ('\u{00ab}', 1024),
    ('\u{00ac}', 1155),
    ('\u{00ad}', 682),
    ('\u{00ae}', 1556),
    ('\u{00af}', 1024),
    ('\u{00b0}', 819),
    ('\u{00b1}', 1124),
    ('\u{00b2}', 614),
    ('\u{00b3}', 614),
    ('\u{00b4}', 682),
    ('\u{00b5}', 1180),
    ('\u{00b6}', 928),
    ('\u{00b7}', 682),
    ('\u{00b8}', 682),
    ('\u{00b9}', 614),
    ('\u{00ba}', 635),
    ('\u{00bb}', 1024),
    ('\u{00bc}', 1536),
    ('\u{00bd}', 1536),
    ('\u{00be}', 1536),
    ('\u{00bf}', 909),
    ('\u{00c0}', 1479),
    ('\u{00c1}', 1479),
    ('\u{00c2}', 1479),
    ('\u{00c3}', 1479),
    ('\u{00c4}', 1479),
    ('\u{00c5}', 1479),
    ('\u{00c6}', 1821),
    ('\u{00c7}', 1366),
    ('\u{00c8}', 1251),
    ('\u{00c9}', 1251),
    ('\u{00ca}', 1251),
    ('\u{00cb}', 1251),
    ('\u{00cc}', 682),
    ('\u{00cd}', 682),
    ('\u{00ce}', 682),
    ('\u{00cf}', 682),
    ('\u{00d0}', 1479),
    ('\u{00d1}', 1479),
    ('\u{00d2}', 1479),
    ('\u{00d3}', 1479),
    ('\u{00d4}', 1479),
    ('\u{00d5}', 1479),
    ('\u{00d6}', 1479),
    ('\u{00d7}', 1155),
    ('\u{00d8}', 1479),
    ('\u{00d9}', 1479),
    ('\u{00da}', 1479),
    ('\u{00db}', 1479),
    ('\u{00dc}', 1479),
    ('\u{00dd}', 1479),
    ('\u{00de}', 1139),
    ('\u{00df}', 1024),
    ('\u{00e0}', 909),
    ('\u{00e1}', 909),
    ('\u{00e2}', 909),
    ('\u{00e3}', 909),
    ('\u{00e4}', 909),
    ('\u{00e5}', 909),
    ('\u{00e6}', 1366),
    ('\u{00e7}', 909),
    ('\u{00e8}', 909),
    ('\u{00e9}', 909),
    ('\u{00ea}', 909),
    ('\u{00eb}', 909),
    ('\u{00ec}', 569),
    ('\u{00ed}', 569),
    ('\u{00ee}', 569),
    ('\u{00ef}', 569),
    ('\u{00f0}', 1024),
    ('\u{00f1}', 1024),
    ('\u{00f2}', 1024),
    ('\u{00f3}', 1024),
    ('\u{00f4}', 1024),
    ('\u{00f5}', 1024),
    ('\u{00f6}', 1024),
    ('\u{00f7}', 1124),
    ('\u{00f8}', 1024),
    ('\u{00f9}', 1024),
    ('\u{00fa}', 1024),
    ('\u{00fb}', 1024),
    ('\u{00fc}', 1024),
    ('\u{00fd}', 1024),
    ('\u{00fe}', 1024),
    ('\u{00ff}', 1024),
];

/// Noto Sans JP advance widths, ascending by character.
pub const NOTO_SANS_JP_WIDTHS: [(char, u16); 191] = [
    (' ', 224),
    ('!', 323),
    ('"', 474),
    ('#', 555),
    ('$', 555),
    ('%', 921),
    ('&', 680),
    ('\'', 278),
    ('(', 338),
    (')', 338),
    ('*', 467),
    ('+', 555),
    (',', 278),
    ('-', 347),
    ('.', 278),
    ('/', 392),
    ('0', 555),
    ('1', 555),
    ('2', 555),
    ('3', 555),
    ('4', 555),
    ('5', 555),
    ('6', 555),
    ('7', 555),
    ('8', 555),
    ('9', 555),
    (':', 278),
    (';', 278),
    ('<', 555),
    ('=', 555),
    ('>', 555),
    ('?', 474),
    ('@', 946),
    ('A', 608),
    ('B', 657),
    ('C', 638),
    ('D', 688),
    ('E', 589),
    ('F', 552),
    ('G', 689),
    ('H', 728),
    ('I', 293),
    ('J', 535),
    ('K', 646),
    ('L', 543),
    ('M', 812),
    ('N', 723),
    ('O', 742),
    ('P', 633),
    ('Q', 742),
    ('R', 635),
    ('S', 596),
    ('T', 599),
    ('U', 721),
    ('V', 575),
    ('W', 878),
    ('X', 573),
    ('Y', 531),
    ('Z', 603),
    ('[', 338),
    ('\\', 392),
    (']', 338),
    ('^', 555),
    ('_', 559),
    ('`', 606),
    ('a', 563),
    ('b', 618),
    ('c', 510),
    ('d', 620),
    ('e', 554),
    ('f', 325),
    ('g', 564),
    ('h', 607),
    ('i', 275),
    ('j', 275),
    ('k', 552),
    ('l', 284),
    ('m', 926),
    ('n', 610),
    ('o', 606),
    ('p', 620),
    ('q', 620),
    ('r', 388),
    ('s', 468),
    ('t', 377),
    ('u', 607),
    ('v', 521),
    ('w', 802),
    ('x', 498),
    ('y', 521),
    ('z', 475),
    ('{', 338),
    ('|', 270),
    ('}', 338),
    ('~', 555),
    ('\u{00a0}', 224),
    ('\u{00a1}', 323),
    ('\u{00a2}', 555),
    ('\u{00a3}', 555),
    ('\u{00a4}', 555),
    ('\u{00a5}', 555),
    ('\u{00a6}', 270),
    ('\u{00a7}', 1000),
    ('\u{00a8}', 606),
    ('\u{00a9}', 832),
    ('\u{00aa}', 386),
    ('\u{00ab}', 479),
    ('\u{00ac}', 555),
    ('\u{00ad}', 347),
    ('\u{00ae}', 473),
    ('\u{00af}', 606),
    ('\u{00b0}', 370),
    ('\u{00b1}', 1000),
    ('\u{00b2}', 411),
    ('\u{00b3}', 411),
    ('\u{00b4}', 606),
    ('\u{00b5}', 628),
    ('\u{00b6}', 1000),
    ('\u{00b7}', 561),
    ('\u{00b8}', 606),
    ('\u{00b9}', 411),
    ('\u{00ba}', 407),
    ('\u{00bb}', 479),
    ('\u{00bc}', 873),
    ('\u{00bd}', 903),
    ('\u{00be}', 889),
    ('\u{00bf}', 474),
    ('\u{00c0}', 608),
    ('\u{00c1}', 608),
    ('\u{00c2}', 608),
    ('\u{00c3}', 608),
    ('\u{00c4}', 608),
    ('\u{00c5}', 608),
    ('\u{00c6}', 918),
    ('\u{00c7}', 638),
    ('\u{00c8}', 589),
    ('\u{00c9}', 589),
    ('\u{00ca}', 589),
    ('\u{00cb}', 589),
    ('\u{00cc}', 293),
    ('\u{00cd}', 293),
    ('\u{00ce}', 293),
    ('\u{00cf}', 293),
    ('\u{00d0}', 712),
    ('\u{00d1}', 723),
    ('\u{00d2}', 742),
    ('\u{00d3}', 742),
    ('\u{00d4}', 742),
    ('\u{00d5}', 742),
    ('\u{00d6}', 742),
    ('\u{00d7}', 1000),
    ('\u{00d8}', 742),
    ('\u{00d9}', 721),
    ('\u{00da}', 721),
    ('\u{00db}', 721),
    ('\u{00dc}', 721),
    ('\u{00dd}', 531),
    ('\u{00de}', 652),
    ('\u{00df}', 643),
    ('\u{00e0}', 563),
    ('\u{00e1}', 563),
    ('\u{00e2}', 563),
    ('\u{00e3}', 563),
    ('\u{00e4}', 563),
    ('\u{00e5}', 563),
    ('\u{00e6}', 877),
    ('\u{00e7}', 510),
    ('\u{00e8}', 554),
    ('\u{00e9}', 554),
    ('\u{00ea}', 554),
    ('\u{00eb}', 554),
    ('\u{00ec}', 275),
    ('\u{00ed}', 275),
    ('\u{00ee}', 275),
    ('\u{00ef}', 275),
    ('\u{00f0}', 608),
    ('\u{00f1}', 610),
    ('\u{00f2}', 606),
    ('\u{00f3}', 606),
    ('\u{00f4}', 606),
    ('\u{00f5}', 606),
    ('\u{00f6}', 606),
    ('\u{00f7}', 1000),
    ('\u{00f8}', 606),
    ('\u{00f9}', 607),
    ('\u{00fa}', 607),
    ('\u{00fb}', 607),
    ('\u{00fc}', 607),
    ('\u{00fd}', 521),
    ('\u{00fe}', 620),
    ('\u{00ff}', 521),
];

/// The table of faces that carry scalar metrics only.
pub const NO_WIDTHS: [(char, u16); 0] = [];

/// Each character of the table is below the next one.
pub open spec fn adjacent_increasing(s: Seq<(char, u16)>) -> bool {
    forall|i: int| 0 <= i < s.len() - 1 ==> #[trigger] s[i].0 < s[i + 1].0
}

proof fn lemma_tables_adjacent()
    ensures
        adjacent_increasing(CARLITO_WIDTHS@),
        adjacent_increasing(ARIMO_WIDTHS@),
        adjacent_increasing(TINOS_WIDTHS@),
        adjacent_increasing(NOTO_SANS_JP_WIDTHS@),
{
}

/// Characters strictly increase along the table.
pub open spec fn keys_increasing(s: Seq<(char, u16)>) -> bool {
    forall|i: int, j: int| 0 <= i < j < s.len() ==> #[trigger] s[i].0 < #[trigger] s[j].0
}

proof fn lemma_chain_lt(s: Seq<(char, u16)>, i: int, j: int)
    requires
        adjacent_increasing(s),
        0 <= i < j < s.len(),
    ensures
        s[i].0 < s[j].0,
    decreases j - i,
{
    if j > i + 1 {
        lemma_chain_lt(s, i, j - 1);
    }
    assert(s[j - 1].0 < s[(j - 1) + 1].0);
}

proof fn lemma_adjacent_to_increasing(s: Seq<(char, u16)>)
    requires
        adjacent_increasing(s),
    ensures
        keys_increasing(s),
{
    assert forall|i: int, j: int| 0 <= i < j < s.len() implies #[trigger] s[i].0 < #[trigger] s[j].0 by {
        lemma_chain_lt(s, i, j);
    }
}

/// The width the table gives `c`, if it has an entry for it.
pub open spec fn width_in(s: Seq<(char, u16)>, c: char) -> Option<u16> {
    if exists|i: int| 0 <= i < s.len() && #[trigger] s[i].0 == c {
        Some(s[choose|i: int| 0 <= i < s.len() && #[trigger] s[i].0 == c].1)
    } else {
        None
    }
}

/// Plain-value view of [`FontMetrics`].
pub struct FontMetricsView {
    pub units_per_em: u16,
    pub ascender: i16,
    pub descender: i16,
    pub default_width: u16,
    pub cjk_width: u16,
    pub fallback_name: Seq<char>,
    pub widths: Seq<(char, u16)>,
}

/// Per-font metric data: scalars plus per-character widths, which are
/// empty for faces with scalar metrics only. Such faces measure CJK
/// characters with `cjk_width` and the rest with `default_width`.
pub struct FontMetrics {
    /// Em square in font units.
    pub units_per_em: u16,
    /// Ascender height in font units (positive).
    pub ascender: i16,
    /// Descender depth in font units (negative).
    pub descender: i16,
    /// Width of characters that have no entry and are not CJK.
    pub default_width: u16,
    /// Width of CJK characters that have no entry.
    pub cjk_width: u16,
    /// Open-source family name, exactly the mapping target it stands for.
    pub fallback_name: &'static str,
    /// Per-character advances, in strictly increasing character order
    /// (see [`FontMetrics::wf`]).
    pub widths: &'static [(char, u16)],
}

impl FontMetrics {
    /// The per-character widths.
    pub closed spec fn widths_view(&self) -> Seq<(char, u16)> {
        self.widths@
    }

    /// The widths ascend strictly by character.
    pub open spec fn wf(&self) -> bool {
        keys_increasing(self.widths_view())
    }
}

impl View for FontMetrics {
    type V = FontMetricsView;

    closed spec fn view(&self) -> FontMetricsView {
        FontMetricsView {
            units_per_em: self.units_per_em,
            ascender: self.ascender,
            descender: self.descender,
            default_width: self.default_width,
            cjk_width: self.cjk_width,
            fallback_name: self.fallback_name@,
            widths: self.widths_view(),
        }
    }
}

impl FontMetrics {
    /// The view holds the scalar fields and the name's characters.
    pub proof fn lemma_view(&self)
        ensures
            self@.units_per_em == self.units_per_em,
            self@.ascender == self.ascender,
            self@.descender == self.descender,
            self@.default_width == self.default_width,
            self@.cjk_width == self.cjk_width,
            self@.fallback_name == self.fallback_name@,
            self@.widths == self.widths_view(),
    {
    }

    /// The width of `c` in font units, if the table has an entry; found
    /// by binary search over the sorted table.
    pub fn width_of(&self, c: char) -> (r: Option<u16>)
        requires
            self.wf(),
        ensures
            r == width_in(self.widths_view(), c),
    {
        let ghost s = self.widths_view();
        let mut lo: usize = 0;
        let mut hi: usize = self.widths.len();
        while lo < hi
            invariant
                s == self.widths@,
                keys_increasing(s),
                lo <= hi <= s.len(),
                forall|i: int| 0 <= i < lo ==> #[trigger] s[i].0 < c,
                forall|i: int| hi <= i < s.len() ==> c < #[trigger] s[i].0,
            decreases hi - lo,
        {
            let mid = lo + (hi - lo) / 2;
            let (k, w) = self.widths[mid];
            if k == c {
                proof {
                    let j = choose|i: int| 0 <= i < s.len() && #[trigger] s[i].0 == c;
                    if j < mid {
                        assert(s[j].0 < s[mid as int].0);
                    } else if j > mid {
                        assert(s[mid as int].0 < s[j].0);
                    }
                }
                return Some(w);
            } else if k < c {
                proof {
                    assert forall|i: int| 0 <= i < mid + 1 implies #[trigger] s[i].0 < c by {
                        if i < mid {
                            assert(s[i].0 < s[mid as int].0);
                        }
                    }
                }
                lo = mid + 1;
            } else {
                proof {
                    assert forall|i: int| mid <= i < s.len() implies c < #[trigger] s[i].0 by {
                        if i > mid {
                            assert(s[mid as int].0 < s[i].0);
                        }
                    }
                }
                hi = mid;
            }
        }
        proof {
            if exists|i: int| 0 <= i < s.len() && #[trigger] s[i].0 == c {
                let j = choose|i: int| 0 <= i < s.len() && #[trigger] s[i].0 == c;
                assert(s[j].0 == c);
            }
        }
        None
    }

    /// Number of width entries.
    pub fn widths_len(&self) -> (r: usize)
        ensures
            r == self.widths_view().len(),
    {
        self.widths.len()
    }

    /// The sorted width table.
    pub fn widths_slice(&self) -> (r: &'static [(char, u16)])
        ensures
            r@ == self.widths_view(),
    {
        self.widths
    }
}

/// Metrics of a face with widths `widths`.
pub open spec fn metrics_view(
    units_per_em: u16,
    ascender: i16,
    descender: i16,
    default_width: u16,
    cjk_width: u16,
    fallback_name: Seq<char>,
    widths: Seq<(char, u16)>,
) -> FontMetricsView {
    FontMetricsView {
        units_per_em,
        ascender,
        descender,
        default_width,
        cjk_width,
        fallback_name,
        widths,
    }
}

/// The scalar-only approximation shared by the Noto CJK faces other
/// than Noto Sans JP.
pub open spec fn cjk_approx_view(name: Seq<char>) -> FontMetricsView {
    metrics_view(1000, 1160, -288i16, 563, 1000, name, Seq::empty())
}

/// The open families with registered metrics, in lookup order.
pub const OSS_FAMILIES: [&'static str; 13] = [
    "Carlito",
    "Arimo",
    "Tinos",
    "Cousine",
    "Caladea",
    "Noto Sans JP",
    "Noto Serif JP",
    "Noto Sans KR",
    "Noto Serif KR",
    "Noto Sans SC",
    "Noto Serif SC",
    "Noto Sans TC",
    "Noto Serif TC",
];

/// The metrics of the `i`-th open family.
pub open spec fn family_metrics(i: int) -> FontMetricsView {
    let name = OSS_FAMILIES@[i]@;
    if i == 0 {
        metrics_view(2048, 1950, -550i16, 991, 2048, name, CARLITO_WIDTHS@)
    } else if i == 1 {
        metrics_view(2048, 1854, -434i16, 1114, 2048, name, ARIMO_WIDTHS@)
    } else if i == 2 {
        metrics_view(2048, 1825, -443i16, 1056, 2048, name, TINOS_WIDTHS@)
    } else if i == 3 {
        metrics_view(2048, 1705, -615i16, 1229, 2048, name, Seq::empty())
    } else if i == 4 {
        metrics_view(2048, 1900, -481i16, 1066, 2048, name, Seq::empty())
    } else if i == 5 {
        metrics_view(1000, 1160, -288i16, 563, 1000, name, NOTO_SANS_JP_WIDTHS@)
    } else {
        cjk_approx_view(name)
    }
}

/// The first index at or after `k` of the open family `name`.
pub open spec fn find_family(name: Seq<char>, k: int) -> Option<int>
    decreases 13 - k,
{
    if k < 0 || k >= 13 {
        None
    } else if OSS_FAMILIES@[k]@ == name {
        Some(k)
    } else {
        find_family(name, k + 1)
    }
}

proof fn lemma_find_family(name: Seq<char>, k: int)
    ensures
        find_family(name, k) matches Some(i) ==> 0 <= i < 13 && k <= i && OSS_FAMILIES@[i]@ == name,
    decreases 13 - k,
{
    if 0 <= k < 13 && OSS_FAMILIES@[k]@ != name {
        lemma_find_family(name, k + 1);
    }
}

/// The metrics registered for the open family `name`, if any.
pub open spec fn oss_metrics(name: Seq<char>) -> Option<FontMetricsView> {
    match find_family(name, 0) {
        Some(i) => Some(family_metrics(i)),
        None => None,
    }
}

/// The view of optional metrics.
pub open spec fn opt_metrics_view(o: Option<FontMetrics>) -> Option<FontMetricsView> {
    match o {
        Some(m) => Some(m@),
        None => None,
    }
}

/// The metrics [`get_font_metrics`] resolves `name` to.
pub open spec fn font_metrics_for(name: Seq<char>) -> Option<FontMetricsView> {
    if name.len() == 0 {
        None
    } else if oss_metrics(name) is Some {
        oss_metrics(name)
    } else {
        match mapped_font(name, default_mapping_view()) {
            Some(target) => oss_metrics(target),
            None => None,
        }
    }
}

/// Carlito (Calibri-compatible).
fn build_carlito() -> (r: FontMetrics)
    ensures
        r@ == family_metrics(0),
        r.wf(),
{
    proof {
        lemma_tables_adjacent();
        lemma_adjacent_to_increasing(CARLITO_WIDTHS@);
    }
    FontMetrics {
        units_per_em: 2048,
        ascender: 1950,
        descender: -550,
        default_width: 991,
        cjk_width: 2048,
        fallback_name: OSS_FAMILIES[0],
        widths: &CARLITO_WIDTHS,
    }
}

/// Arimo (Arial / Helvetica-compatible).
fn build_arimo() -> (r: FontMetrics)
    ensures
        r@ == family_metrics(1),
        r.wf(),
{
    proof {
        lemma_tables_adjacent();
        lemma_adjacent_to_increasing(ARIMO_WIDTHS@);
    }
    FontMetrics {
        units_per_em: 2048,
        ascender: 1854,
        descender: -434,
        default_width: 1114,
        cjk_width: 2048,
        fallback_name: OSS_FAMILIES[1],
        widths: &ARIMO_WIDTHS,
    }
}

/// Tinos (Times New Roman-compatible).
fn build_tinos() -> (r: FontMetrics)
    ensures
        r@ == family_metrics(2),
        r.wf(),
{
    proof {
        lemma_tables_adjacent();
        lemma_adjacent_to_increasing(TINOS_WIDTHS@);
    }
    FontMetrics {
        units_per_em: 2048,
        ascender: 1825,
        descender: -443,
        default_width: 1056,
        cjk_width: 2048,
        fallback_name: OSS_FAMILIES[2],
        widths: &TINOS_WIDTHS,
    }
}

/// Cousine (Courier-compatible, monospace): every ASCII glyph shares
/// `default_width`, so no per-character table is needed.
fn build_cousine() -> (r: FontMetrics)
    ensures
        r@ == family_metrics(3),
        r.wf(),
{
    assert(NO_WIDTHS@ =~= Seq::<(char, u16)>::empty());
    FontMetrics {
        units_per_em: 2048,
        ascender: 1705,
        descender: -615,
        default_width: 1229,
        cjk_width: 2048,
        fallback_name: OSS_FAMILIES[3],
        widths: &NO_WIDTHS,
    }
}

/// Caladea (Cambria-compatible): scalar metrics with its average Latin
/// advance as `default_width`.
fn build_caladea() -> (r: FontMetrics)
    ensures
        r@ == family_metrics(4),
        r.wf(),
{
    assert(NO_WIDTHS@ =~= Seq::<(char, u16)>::empty());
    FontMetrics {
        units_per_em: 2048,
        ascender: 1900,
        descender: -481,
        default_width: 1066,
        cjk_width: 2048,
        fallback_name: OSS_FAMILIES[4],
        widths: &NO_WIDTHS,
    }
}

/// Noto Sans JP.
fn build_noto_sans_jp() -> (r: FontMetrics)
    ensures
        r@ == family_metrics(5),
        r.wf(),
{
    proof {
        lemma_tables_adjacent();
        lemma_adjacent_to_increasing(NOTO_SANS_JP_WIDTHS@);
    }
    FontMetrics {
        units_per_em: 1000,
        ascender: 1160,
        descender: -288,
        default_width: 563,
        cjk_width: 1000,
        fallback_name: OSS_FAMILIES[5],
        widths: &NOTO_SANS_JP_WIDTHS,
    }
}

/// The scalar-only approximation used by the Noto CJK faces other than
/// Noto Sans JP: full-width CJK advance, a representative Latin advance.
fn build_noto_cjk_approx(fallback_name: &'static str) -> (r: FontMetrics)
    ensures
        r@ == cjk_approx_view(fallback_name@),
        r.wf(),
{
    assert(NO_WIDTHS@ =~= Seq::<(char, u16)>::empty());
    FontMetrics {
        units_per_em: 1000,
        ascender: 1160,
        descender: -288,
        default_width: 563,
        cjk_width: 1000,
        fallback_name,
        widths: &NO_WIDTHS,
    }
}

/// The metrics of the `i`-th open family.
fn build_family(i: usize) -> (r: FontMetrics)
    requires
        i < 13,
    ensures
        r@ == family_metrics(i as int),
        r.wf(),
{
    if i == 0 {
        build_carlito()
    } else if i == 1 {
        build_arimo()
    } else if i == 2 {
        build_tinos()
    } else if i == 3 {
        build_cousine()
    } else if i == 4 {
        build_caladea()
    } else if i == 5 {
        build_noto_sans_jp()
    } else {
        build_noto_cjk_approx(OSS_FAMILIES[i])
    }
}

/// Open family name to metrics.
fn metrics_for_oss_name(name: &str) -> (r: Option<FontMetrics>)
    ensures
        opt_metrics_view(r) == oss_metrics(name@),
        r matches Some(m) ==> m.wf(),
{
    let mut k: usize = 0;
    while k < 13
        invariant
            k <= 13,
            find_family(name@, 0) == find_family(name@, k as int),
        decreases 13 - k,
    {
        if str_eq(OSS_FAMILIES[k], name) {
            return Some(build_family(k));
        }
        k = k + 1;
    }
    None
}

/// Resolves a PPTX font name to its fallback metrics: a direct match
/// against an open family name, else the metrics of the family the
/// default mapping sends it to. `None` when the name is empty or has no
/// registered endpoint.
pub fn get_font_metrics(font_family: &str) -> (r: Option<FontMetrics>)
    ensures
        opt_metrics_view(r) == font_metrics_for(font_family@),
        r matches Some(m) ==> m.wf(),
{
    let cs = str_chars(font_family);
    if cs.len() == 0 {
        return None;
    }
    let direct = metrics_for_oss_name(font_family);
    if direct.is_some() {
        return direct;
    }
    let mapping = default_font_mapping();
    match get_mapped_font(font_family, &mapping) {
        Some(target) => metrics_for_oss_name(target.as_str()),
        None => None,
    }
}

/// The open family name for the font-family fallback list of
/// `font_family`: the `fallback_name` of its metrics.
pub fn get_metrics_fallback_font(font_family: &str) -> (r: Option<&'static str>)
    ensures
        match r {
            Some(n) => font_metrics_for(font_family@) matches Some(m) && n@ == m.fallback_name,
            None => font_metrics_for(font_family@) is None,
        },
{
    match get_font_metrics(font_family) {
        Some(m) => {
            proof {
                m.lemma_view();
            }
            Some(m.fallback_name)
        },
        None => None,
    }
}

/// The metrics of a run: those of its primary font if it has any, else
/// those of its East-Asian font.
pub open spec fn run_metrics(font_family: Option<Seq<char>>, font_family_ea: Option<Seq<char>>) -> Option<
    FontMetricsView,
> {
    let primary = match font_family {
        Some(f) => font_metrics_for(f),
        None => None,
    };
    if primary is Some {
        primary
    } else {
        match font_family_ea {
            Some(f) => font_metrics_for(f),
            None => None,
        }
    }
}

/// The characters of an optional borrowed name.
pub open spec fn opt_name_view(o: Option<&str>) -> Option<Seq<char>> {
    match o {
        Some(s) => Some(s@),
        None => None,
    }
}

/// The metrics of a run's primary font, else of its East-Asian font.
pub fn resolve_metrics(font_family: Option<&str>, font_family_ea: Option<&str>) -> (r: Option<
    FontMetrics,
>)
    ensures
        opt_metrics_view(r) == run_metrics(opt_name_view(font_family), opt_name_view(font_family_ea)),
        r matches Some(m) ==> m.wf(),
{
    let primary = match font_family {
        Some(f) => get_font_metrics(f),
        None => None,
    };
    if primary.is_some() {
        return primary;
    }
    match font_family_ea {
        Some(f) => get_font_metrics(f),
        None => None,
    }
}

/// How a character's advance is estimated without font data.
#[derive(Copy, Clone, Debug, PartialEq, Eq, Structural)]
pub enum WidthClass {
    /// Halfwidth Katakana / Hangul: half an em.
    Halfwidth,
    /// CJK: nearly a full em.
    Wide,
    /// Narrow Latin punctuation and letters.
    Narrow,
    /// Everything else.
    Normal,
}

/// The width class of a code point; halfwidth forms are checked before
/// the CJK blocks.
pub open spec fn width_class_of(cp: u32) -> WidthClass {
    if in_range(cp, 0xFF61, 0xFF9F) || in_range(cp, 0xFFA0, 0xFFDC) {
        WidthClass::Halfwidth
    } else if cjk_cp(cp) {
        WidthClass::Wide
    } else if narrow_latin_cp(cp) {
        WidthClass::Narrow
    } else {
        WidthClass::Normal
    }
}

/// The heuristic width class of `code_point`.
pub fn width_class(code_point: u32) -> (r: WidthClass)
    ensures
        r == width_class_of(code_point),
{
    if is_halfwidth_cjk_codepoint(code_point) {
        WidthClass::Halfwidth
    } else if is_cjk_codepoint(code_point) {
        WidthClass::Wide
    } else if is_narrow_latin(code_point) {
        WidthClass::Narrow
    } else {
        WidthClass::Normal
    }
}

/// Where a character's advance comes from.
#[derive(Copy, Clone, Debug, PartialEq, Eq, Structural)]
pub enum CharWidth {
    /// A width in font units of an em square of `units_per_em`.
    Units {
        /// The advance.
        units: u16,
        /// The em square.
        units_per_em: u16,
    },
    /// A heuristic ratio of the em: the class's, or the font's average
    /// advance when `average` holds.
    Heuristic {
        /// The width class.
        class: WidthClass,
        /// Use the font's average advance.
        average: bool,
    },
}

/// The advance, in font units, metrics give a character: its table
/// entry, else the CJK width for CJK characters, else the default width.
pub open spec fn metric_units(m: FontMetricsView, ch: char) -> u16 {
    match width_in(m.widths, ch) {
        Some(w) => w,
        None => if cjk_cp(ch as u32) {
            m.cjk_width
        } else {
            m.default_width
        },
    }
}

/// The heuristic for a code point: the font's average advance replaces
/// the class ratio for characters that are neither CJK nor narrow.
pub open spec fn heuristic_of(cp: u32, has_average: bool) -> CharWidth {
    CharWidth::Heuristic {
        class: width_class_of(cp),
        average: has_average && !cjk_cp(cp) && !narrow_latin_cp(cp),
    }
}

/// How a character of a run is measured. A CJK character uses the
/// East-Asian metrics when there are some, any other character the
/// primary metrics; a non-CJK character under metrics without a width
/// table falls back to the heuristic with the primary font's average;
/// without metrics the heuristic uses the average of the font the
/// character belongs to.
pub open spec fn char_width_of(
    ch: char,
    latin: Option<FontMetricsView>,
    ea: Option<FontMetricsView>,
    latin_has_average: bool,
    ea_has_average: bool,
) -> CharWidth {
    let cp = ch as u32;
    let is_ea = cjk_cp(cp);
    let metrics = if is_ea && ea is Some {
        ea
    } else {
        latin
    };
    match metrics {
        Some(m) => if !is_ea && m.widths.len() == 0 {
            heuristic_of(cp, latin_has_average)
        } else {
            CharWidth::Units { units: metric_units(m, ch), units_per_em: m.units_per_em }
        },
        None => heuristic_of(cp, if is_ea { ea_has_average } else { latin_has_average }),
    }
}

impl FontMetrics {
    /// The advance in font units: the table entry, else the CJK width for
    /// CJK characters, else the default width.
    pub fn char_units(&self, ch: char) -> (r: u16)
        requires
            self.wf(),
        ensures
            r == metric_units(self@, ch),
    {
        match self.width_of(ch) {
            Some(w) => w,
            None => if is_cjk_codepoint(ch as u32) {
                self.cjk_width
            } else {
                self.default_width
            },
        }
    }
}

/// How `ch` is measured in a run with primary metrics `latin`,
/// East-Asian metrics `ea`, and whether each font has a known average
/// advance.
pub fn char_width(
    ch: char,
    latin: &Option<FontMetrics>,
    ea: &Option<FontMetrics>,
    latin_has_average: bool,
    ea_has_average: bool,
) -> (r: CharWidth)
    requires
        latin matches Some(m) ==> m.wf(),
        ea matches Some(m) ==> m.wf(),
    ensures
        r == char_width_of(
            ch,
            opt_metrics_view(*latin),
            opt_metrics_view(*ea),
            latin_has_average,
            ea_has_average,
        ),
{
    let cp = ch as u32;
    let is_ea = is_cjk_codepoint(cp);
    let metrics = if is_ea && ea.is_some() {
        ea
    } else {
        latin
    };
    match metrics {
        Some(m) => {
            proof {
                m.lemma_view();
            }
            if !is_ea && m.widths_len() == 0 {
                let avg = latin_has_average && !is_ea && !is_narrow_latin(cp);
                CharWidth::Heuristic { class: width_class(cp), average: avg }
            } else {
                CharWidth::Units { units: m.char_units(ch), units_per_em: m.units_per_em }
            }
        },
        None => {
            let has = if is_ea {
                ea_has_average
            } else {
                latin_has_average
            };
            let avg = has && !is_ea && !is_narrow_latin(cp);
            CharWidth::Heuristic { class: width_class(cp), average: avg }
        },
    }
}

/// Registered metrics are named after the family they are registered
/// for, have a positive em square and ascender, a negative descender,
/// and strictly ascending width tables.
pub proof fn law_registered_metrics_shape(name: Seq<char>)
    ensures
        oss_metrics(name) matches Some(m) ==> {
            &&& m.fallback_name == name
            &&& m.units_per_em > 0
            &&& m.ascender > 0
            &&& m.descender < 0
            &&& m.cjk_width == m.units_per_em
            &&& keys_increasing(m.widths)
        },
{
    lemma_find_family(name, 0);
    lemma_tables_adjacent();
    lemma_adjacent_to_increasing(CARLITO_WIDTHS@);
    lemma_adjacent_to_increasing(ARIMO_WIDTHS@);
    lemma_adjacent_to_increasing(TINOS_WIDTHS@);
    lemma_adjacent_to_increasing(NOTO_SANS_JP_WIDTHS@);
}

/// The fallback name of resolved metrics is the name itself when it is
/// an open family, else the target the default mapping sends it to.
pub proof fn law_fallback_name_is_mapping_target(name: Seq<char>)
    ensures
        font_metrics_for(name) matches Some(m) ==> m.fallback_name == (if oss_metrics(name) is Some {
            name
        } else {
            mapped_font(name, default_mapping_view()).unwrap()
        }),
{
    law_registered_metrics_shape(name);
    if let Some(t) = mapped_font(name, default_mapping_view()) {
        law_registered_metrics_shape(t);
    }
}

/// Whatever a name resolves to, the width table of its metrics is
/// sorted by character, strictly, so that lookups may search it.
pub proof fn law_resolved_widths_sorted(name: Seq<char>)
    ensures
        font_metrics_for(name) matches Some(m) ==> keys_increasing(m.widths),
{
    law_registered_metrics_shape(name);
    if let Some(t) = mapped_font(name, default_mapping_view()) {
        law_registered_metrics_shape(t);
    }
}

/// A family that is not itself an open family, and whose default
/// mapping target has registered metrics, resolves to metrics whose
/// fallback font is exactly that target: what
/// [`get_metrics_fallback_font`] returns is what [`get_mapped_font`]
/// returns over [`default_font_mapping`].
pub proof fn law_fallback_font_is_mapping_target(name: Seq<char>)
    requires
        oss_metrics(name) is None,
        mapped_font(name, default_mapping_view()) matches Some(t) && oss_metrics(t) is Some,
    ensures
        font_metrics_for(name) matches Some(m) && m.fallback_name == mapped_font(
            name,
            default_mapping_view(),
        ).unwrap(),
{
    let t = mapped_font(name, default_mapping_view()).unwrap();
    law_registered_metrics_shape(t);
}

} // verus!
