//! Sichuan patterns. A hand scores 1000 × 2^(fan − 1) points, capped at six fan; the highest
//! base pattern counts alone and the extra fan add up.

use vstd::prelude::*;

verus! {

/// A pattern; its value is given by [`Yaku::fan`].
#[derive(Clone, Copy, Debug, PartialEq, Eq, Structural, Hash, PartialOrd, Ord)]
pub enum Yaku {
    PingHu,
    DuiDuiHu,
    QingYiSe,
    QiDui,
    QingDui,
    LongQiDui,
    QingQiDui,
    TianHuDiHu,
    ZiMo,
    Gen,
    GangShangHua,
    GangShangPao,
    QiangGangHu,
    JinGouDiao,
    HaiDi,
}

/// The fan of one occurrence of a pattern.
pub open spec fn yaku_fan(yaku: Yaku) -> u32 {
    match yaku {
        Yaku::PingHu => 1,
        Yaku::DuiDuiHu => 2,
        Yaku::QingYiSe => 3,
        Yaku::QiDui => 3,
        Yaku::QingDui => 4,
        Yaku::LongQiDui => 5,
        Yaku::QingQiDui => 5,
        Yaku::TianHuDiHu => 6,
        _ => 1,
    }
}

impl Yaku {
    #[must_use]
    pub fn fan(self) -> (r: u32)
        ensures
            r == yaku_fan(self),
    {
        match self {
            Yaku::PingHu => 1,
            Yaku::DuiDuiHu => 2,
            Yaku::QingYiSe | Yaku::QiDui => 3,
            Yaku::QingDui => 4,
            Yaku::LongQiDui | Yaku::QingQiDui => 5,
            Yaku::TianHuDiHu => 6,
            _ => 1,
        }
    }

    #[must_use]
    pub fn as_str(self) -> (r: &'static str)
        ensures
            self == Yaku::PingHu ==> r@ == "ping_hu"@,
            self == Yaku::QingYiSe ==> r@ == "qing_yi_se"@,
            self == Yaku::Gen ==> r@ == "gen"@,
            self == Yaku::HaiDi ==> r@ == "hai_di"@,
    {
        match self {
            Yaku::PingHu => "ping_hu",
            Yaku::DuiDuiHu => "dui_dui_hu",
            Yaku::QingYiSe => "qing_yi_se",
            Yaku::QiDui => "qi_dui",
            Yaku::QingDui => "qing_dui",
            Yaku::LongQiDui => "long_qi_dui",
            Yaku::QingQiDui => "qing_qi_dui",
            Yaku::TianHuDiHu => "tian_hu_di_hu",
            Yaku::ZiMo => "zi_mo",
            Yaku::Gen => "gen",
            Yaku::GangShangHua => "gang_shang_hua",
            Yaku::GangShangPao => "gang_shang_pao",
            Yaku::QiangGangHu => "qiang_gang_hu",
            Yaku::JinGouDiao => "jin_gou_diao",
            Yaku::HaiDi => "hai_di",
        }
    }
}

/// A counted pattern and how many times it counts (only a gen counts more than once).
#[derive(Clone, Copy, Debug, PartialEq, Eq, Structural)]
pub struct YakuValue {
    yaku: Yaku,
    count: u32,
}

impl YakuValue {
    pub closed spec fn spec_yaku(self) -> Yaku {
        self.yaku
    }

    pub closed spec fn spec_count(self) -> u32 {
        self.count
    }

    #[must_use]
    pub fn new(yaku: Yaku, count: u32) -> (r: YakuValue)
        ensures
            r.spec_yaku() == yaku,
            r.spec_count() == count,
    {
        YakuValue { yaku, count }
    }

    #[must_use]
    pub fn single(yaku: Yaku) -> (r: YakuValue)
        ensures
            r.spec_yaku() == yaku,
            r.spec_count() == 1,
    {
        YakuValue::new(yaku, 1)
    }

    #[must_use]
    pub fn yaku(self) -> (r: Yaku)
        ensures
            r == self.spec_yaku(),
    {
        self.yaku
    }

    #[must_use]
    pub fn count(self) -> (r: u32)
        ensures
            r == self.spec_count(),
    {
        self.count
    }

    /// The fan of the pattern times its count.
    #[must_use]
    pub fn fan(self) -> (r: u32)
        requires
            yaku_fan(self.spec_yaku()) * self.spec_count() <= u32::MAX,
        ensures
            r == yaku_fan(self.spec_yaku()) * self.spec_count(),
    {
        self.yaku.fan() * self.count
    }
}

} // verus!
