//! The provinces and municipalities of South Africa.
use vstd::prelude::*;

verus! {

/// One of the nine provinces of South Africa.
#[derive(Debug, Clone, Copy, PartialEq, Eq, Structural)]
pub enum Province {
    EasternCape,
    FreeState,
    Gauteng,
    KwaZuluNatal,
    Limpopo,
    Mpumalanga,
    NorthWest,
    NorthernCape,
    WesternCape,
}

/// Municipalities are either metropolitan, or districts that are subdivided into local
/// municipalities.
#[derive(Debug, Clone, Copy, PartialEq, Eq, Structural)]
pub enum Municipality {
    Metro(MetroMunic),
    District { district: DistrictMunic, local: LocalMunic },
}

/// The metropolitan municipalities of South Africa.
#[derive(Debug, Clone, Copy, PartialEq, Eq, Structural)]
#[allow(non_camel_case_types)]
pub enum MetroMunic {
    BuffaloCity,
    CityOfCapeTown,
    CityOfEkurhuleni,
    CityOfJohannesburg,
    CityOfTshwane,
    Mangaung,
    NelsonMandelaBay,
    eThekwini,
}

/// The district municipalities of South Africa.
#[derive(Debug, Clone, Copy, PartialEq, Eq, Structural)]
#[allow(non_camel_case_types)]
pub enum DistrictMunic {
    AlfredNzo,
    Amajuba,
    Amathole,
    Bojanala,
    CapeWinelands,
    Capricorn,
    CentralKaroo,
    ChrisHani,
    DrKennethKaunda,
    DrRuthSegomotsiMompati,
    Ehlanzeni,
    FezileDabi,
    FrancesBaard,
    GardenRoute,
    GertSibande,
    HarryGwala,
    JoeGqabi,
    JohnTaoloGaetsewe,
    KingCetshwayo,
    Lejweleputswa,
    Mopani,
    Namakwa,
    NgakaModiriMolema,
    Nkangala,
    ORTambo,
    Overberg,
    PixleykaSeme,
    SarahBaartman,
    Sedibeng,
    Sekhukhune,
    ThaboMofutsanyana,
    Ugu,
    Vhembe,
    Waterberg,
    WestCoast,
    WestRand,
    Xhariep,
    ZFMgcawu,
    Zululand,
    iLembe,
    uMgungundlovu,
    uMkhanyakude,
    uMzinyathi,
    uThukela,
}

/// The local municipalities of South Africa.
#[derive(Debug, Clone, Copy, PartialEq, Eq, Structural)]
#[allow(non_camel_case_types)]
pub enum LocalMunic {
    Abaqulusi,
    AlbertLuthuli,
    AlfredDuma,
    Amahlathi,
    BaPhalaborwa,
    BeaufortWest,
    BelaBela,
    Bergrivier,
    BigFiveHlabisa,
    Bitou,
    Blouberg,
    BlueCraneRoute,
    BreedeValley,
    Bushbuckridge,
    CapeAgulhas,
    Cederberg,
    CityOfMatlosana,
    CollinsChabane,
    Dannhauser,
    DawidKruiper,
    Dihlabeng,
    Dikgatlong,
    Dipaleseng,
    Ditsobotla,
    DrBeyersNaude,
    DrJSMoroka,
    DrNkosazanaDlaminiZuma,
    Drakenstein,
    EliasMotsoaledi,
    Elundini,
    Emakhazeni,
    EmalahleniEasternCape,
    EmalahleniMpumalanga,
    Emfuleni,
    Emthanjeni,
    Endumeni,
    Engcobo,
    EnochMgijima,
    EphraimMogale,
    FetakgomoTubatse,
    GaSegonyana,
    Gamagara,
    George,
    GovanMbeki,
    GreatKei,
    GreaterGiyani,
    GreaterKokstad,
    GreaterLetaba,
    GreaterTaung,
    GreaterTzaneen,
    Hantam,
    Hessequa,
    Impendle,
    IngquzaHill,
    InkosiLangalibalele,
    IntsikaYethu,
    InxubaYethemba,
    JBMarks,
    JoeMorolong,
    Jozini,
    KagisanoMolopo,
    KaiGarib,
    Kamiesberg,
    Kannaland,
    Kareeberg,
    KarooHoogland,
    Kgatelopele,
    Kgetlengrivier,
    KhaiMa,
    Kheis,
    KingSabataDalindyebo,
    Knysna,
    Kopanong,
    KouKamma,
    Kouga,
    KwaDukuza,
    Laingsburg,
    Langeberg,
    Lekwa,
    LekwaTeemane,
    LepelleNkumpi,
    Lephalale,
    Lesedi,
    Letsemeng,
    Madibeng,
    Mafube,
    Magareng,
    Mahikeng,
    Makana,
    Makhado,
    Makhuduthamaga,
    MalutiAPhofung,
    Mamusa,
    Mandeni,
    Mantsopa,
    Maphumulo,
    MaquassiHills,
    Maruleng,
    Masilonyana,
    Matatiele,
    Matjhabeng,
    Matzikama,
    Mbhashe,
    Mbombela,
    MerafongCity,
    Metsimaholo,
    Mhlontlo,
    Midvaal,
    Mkhambathini,
    Mkhondo,
    Mnquma,
    ModimolleMookgophong,
    Mogalakwena,
    MogaleCity,
    Mohokare,
    Molemole,
    Moqhaka,
    Moretele,
    MosesKotane,
    MosselBay,
    Mpofana,
    Msinga,
    Msukaligwa,
    Msunduzi,
    Mthonjaneni,
    Mtubatuba,
    Musina,
    Nala,
    Naledi,
    NamaKhoi,
    Ndlambe,
    Ndwedwe,
    Newcastle,
    Ngqushwa,
    Ngwathe,
    Nkandla,
    Nketoana,
    Nkomazi,
    Nongoma,
    Nqutu,
    Ntabankulu,
    Nyandeni,
    Okhahlamba,
    Oudtshoorn,
    Overstrand,
    Phokwane,
    Phumelela,
    PixleykaSeme,
    Polokwane,
    PortStJohns,
    PrinceAlbert,
    RamotshereMoiloa,
    RandWestCity,
    Ratlou,
    RayNkonyeni,
    RaymondMhlaba,
    Renosterberg,
    Richmond,
    Richtersveld,
    Rustenburg,
    Sakhisizwe,
    SaldanhaBay,
    Senqu,
    Setsoto,
    Siyancuma,
    Siyathemba,
    SolPlaatje,
    Stellenbosch,
    SteveTshwete,
    SundaysRiverValley,
    Swartland,
    Swellendam,
    ThabaChweu,
    Thabazimbi,
    Theewaterskloof,
    Thembelihle,
    ThembisileHani,
    Thulamela,
    Tokologo,
    Tsantsabane,
    Tswaing,
    Tswelopele,
    Ubuhlebezwe,
    Ubuntu,
    Ulundi,
    Umdoni,
    Umsobomvu,
    Umvoti,
    Umzimkhulu,
    Umzimvubu,
    Umzumbe,
    VictorKhanye,
    WalterSisulu,
    WinnieMadikizelaMandela,
    Witzenberg,
    eDumbe,
    eMadlangeni,
    uMfolozi,
    uMhlabuyalingana,
    uMhlathuze,
    uMlalazi,
    uMngeni,
    uMshwathi,
    uMuziwabantu,
    uPhongolo,
}

} // verus!
