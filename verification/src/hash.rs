//! Hashing keys: one 64-bit key for each piece code on each square, and one
//! for the side to move.

use vstd::prelude::*;
use crate::types::piece::Piece;
use crate::types::square::Square;

verus! {

/// How many piece codes a square has keys for.
pub const CODES_PER_SQUARE: usize = 14;

/// Where the key for the side to move stands in the table.
pub const CTM_STRIDE: usize = 896;

/// The keys: the first 897 numbers of the generator fresh from the key seed.
pub const ZOBRIST_VALUES: [u64; 897] = [
    0xb7d40d758c71c17f, 0x07b63ad9cd7dcddf, 0x5d46057ad08efa8c, 0x8372daa7b5c5ea47,
    0x45aa4d21b3d59373, 0xa038b001956a537d, 0x274343815184af84, 0x101be8ad198c5565,
    0x946734e3b77d61ad, 0x2c9f16ec24893f6f, 0x34aaf50793138241, 0xf0039f04309f402f,
    0xbdbec3d88bf8c998, 0x4eea78a3ba6720fe, 0x03c2187e5f7e806b, 0x05e7995c0cd7857e,
    0xf18fbdfb09bc6971, 0x544032f997257310, 0x84386e4ccc1fd630, 0x4ac190ab975a0709,
    0x22519557c515338f, 0x69053ac726553595, 0x17696006ca8fb15a, 0xd6f41a5797403f3e,
    0xa03306c83ecaa9cd, 0x420939989b62c274, 0xce7f9605040e9ef5, 0x6dee5338e5905523,
    0x13f2be385136be0f, 0xa6e7c16800e9c31e, 0x2df5dabecfa0400a, 0x623f41f4da8bc27f,
    0x09a6332a68517678, 0xf70c05e16edbcb01, 0xe2141948520da711, 0xcd43ec1d367c94e2,
    0xfab98f1d83e271ad, 0xe8f072f39d1373e5, 0xad35ce5333b12d3a, 0xbd57ab5583c1dbfa,
    0x63a138d3a52724d2, 0x79c0e4e17df14dad, 0x47d329fe9945fee0, 0x585bd78d93819006,
    0xf95fa11922f6f1a0, 0x3a8f5943da26d811, 0xf2a53a1d148d3115, 0x8b824e74ec1049cd,
    0x273b69e21ee085ac, 0x24fe1a979e83b120, 0xbc2c209720959c81, 0xf6868a48d081975d,
    0x67eefb814ef043b3, 0xf3e5a3251bb3042c, 0x8e53ebe500709aae, 0x0f5627d6029656ac,
    0x0d1c9124957307ef, 0x3923e95856b74503, 0xc88fc0f472568f3b, 0x779f8cdce4b0b047,
    0xbf3a1737fc093996, 0xeb7ffa994fe4476f, 0xad7abe80220a97c9, 0x5e066c6ea627d09c,
    0x2e5c71e3612ea171, 0x6202d21ed338292e, 0x51b6089bf678fae0, 0x94fe1ae988f7fc8c,
    0xfdc9289ad087c988, 0x8c9d74a9565f4912, 0x56fabb5d90a60771, 0xcc5aa950ccbc2ad2,
    0x344abec3c6e6d999, 0x26289363eb094f49, 0xd4f3f8152a8548f4, 0x14eb09c8ad782565,
    0x764dd9eb4614a122, 0x9b4e469ce26cd39a, 0xe47c6af3b2588709, 0xe3e9da8f65a56c81,
    0xdf32f718b58586b0, 0x96ee25dfd22d51a3, 0xdcd2c77db8b4a19c, 0xad1492a66321b05b,
    0x2d23fb4734f975a0, 0xbd30a07ff1ef34b0, 0x59575d4b0da657ea, 0x862eefc8830fcca7,
    0x981648a6d4d24122, 0x01e06a7e85ae847a, 0x871c5a872fb8ea33, 0x5292502d9c048f9d,
    0x56dcd684f35e751b, 0x7c9259784cd4087f, 0x386c24378c963f15, 0x24dd373dada42269,
    0xa618a5201944fb6d, 0x1836fa5cf1faf5f6, 0xd053e6d855fb9be4, 0x3728884394548e33,
    0xb6442c5199b692bc, 0x982be8ae7b75c64b, 0x4a28a8c1454c406c, 0xfec993b067626c0a,
    0xaecc21ba2480e9e3, 0xaa200a4490e539d1, 0x1c5ee0589cdb5de7, 0xcf4817c7651ab9bd,
    0x773239c31c91624d, 0x460237032a6b0fbd, 0xa1d1f3e1d510896d, 0x993db48207d81eb2,
    0xc0f2b58e34723b1a, 0x4b0b7aa6f3e8b0d6, 0xdb265861f3503083, 0x4695f2baea8318fc,
    0x09ed0caeb5ab989f, 0xd1a31e28f213b9d9, 0x5c4ad2e016794abe, 0x3e6d52e0f98aa410,
    0x7ea6df19be527620, 0x8b7aa18ab7002499, 0x05b189762bf9acb6, 0xe4d6dda429b82d8c,
    0xa6c2d0458f0bfa35, 0xde694205c639ca86, 0x8da038548c273a0d, 0x058af4cd34bea79e,
    0x52e05f58e847e30e, 0xb615aff84fa0c74c, 0xb6f0290d1d15b151, 0xea8e0c37adfa3460,
    0x5ae2a5c222b2d80a, 0xab8162865f967a55, 0x3813f6457c29888d, 0xf9dbe972bf6878af,
    0x1274b16ac5ab4ec3, 0xe77b40f1f03a1937, 0xa60f7453e394857b, 0x5a880b4898012377,
    0xfa882a41a3bbcbac, 0xd3de96f1b03bae05, 0x47c2d522c9dc87a9, 0x9e6155755c393843,
    0x7a59ecd96f8c984d, 0xcb55c54050c86d56, 0x8e8049701b5da355, 0x62b89d1b9da4f6c1,
    0xeb6b4e7fa9022ed9, 0x39dba80f9ee5a44a, 0x953fe12d3ae0ac0c, 0x0e0e3e7e16495ce3,
    0x53efb8c091fbbbbb, 0x0ed6bf568d1aa1fe, 0x82b8f09ec83c8270, 0x6e808dd0deddac03,
    0x142e93f2f50f75c0, 0xbc4943eb483e5f0d, 0x649b1cb6c7f97c14, 0x7a77435a5ee59c56,
    0xed62304f746108be, 0x19d486a794b36658, 0x34c4d2ad452fccb1, 0xb2d7a31217000c0e,
    0xb8ffcf0c85acb730, 0xbab32b2ee063a091, 0xfe570f5499446161, 0x8d543f715b1da353,
    0xacbe19ed5f5d4a89, 0x7fa6bd0a62e0fd5e, 0x6cad44995661f5fd, 0xe77856b21ed7d2e4,
    0xf3105ebb868b9df3, 0x970e9fc2b1ef820d, 0xe631a5c4d50725c3, 0x2cbd8fe3836015ad,
    0x66e1e45bf2b4a710, 0xac56856b89f1fb45, 0xa85f65457dca8143, 0x326635e305f1d0c5,
    0xdd91acb784a53117, 0x109d1b8c795fbb18, 0x7e0815e5ab207ce7, 0x10151ae0e6826c21,
    0xa6811a24a62c350c, 0xbd99af5dc981a305, 0xc2a892f30b3f749b, 0x856f57cc0ad10c84,
    0x2e175a5d0b70a241, 0x662582507e45cf73, 0x3af9d52cbd49cc4c, 0xefc637e1ebb4e777,
    0x12a922644e1a3bc6, 0x6f6ffcbd1a52b011, 0x5c12c32a18677bf3, 0x662137ee5d503466,
    0x670574b6511c9eec, 0x837e4af73789198e, 0xebb4fbba51249de2, 0xd7933d7001321ece,
    0x53ea457c59e2dc74, 0x2987e15757c721f5, 0x78e378be6aa25b95, 0xc5916fcdf902ea76,
    0xf2fd840a89374334, 0x36f360880823fa59, 0x26b08041f5d1d29f, 0x90ab7fdbe4a4875b,
    0xf09057d0f3b991d1, 0xd4f1e5719701b8a6, 0xb63965da9c2814f3, 0x24f22988a6d22b76,
    0x0cdd06274749e229, 0xa8b5b85c2a05ce40, 0x461df6c5e9e74316, 0x9e7e32c3dfcfd720,
    0xd020466c4dbf6352, 0x36a63558922e657a, 0x2d6892e1245f3e28, 0x678207d878bbcb1a,
    0x2e9b7a6ded748d12, 0xe3021f5a6be33731, 0x01a0254d67e0979c, 0xabed218965ebe59a,
    0x436192b8a943329d, 0x0f157c61582cd6d0, 0x9cccadf1d081fc32, 0x8a5bb50fa2052f1e,
    0x0604f6d8713fa56d, 0xee93767485fd6887, 0xfb8865ba35f3f63e, 0x9662ed662cb1bcb3,
    0x1cf8745a1303469c, 0xab705bcd9cad5a1b, 0xa6d195f5ac1eb286, 0x6e6e7a9d8ab409fc,
    0x0b6e0aec9ced9f88, 0x016f0d7e887ef9af, 0x221f2bf54e45d87a, 0x028c3bfad17dfa72,
    0x74681f8d1bab1840, 0x6af51841a014b8eb, 0x972b532f82c2af1f, 0xa02b8a6dad7b7409,
    0x57903a7b17effbb1, 0xc9e62ebcb7e7ce9d, 0x9d3d44f3d6d874ac, 0xa8b1ba74dd2ed6ee,
    0x55dd3016b2e954b1, 0xd5620d740c183262, 0xfe648ae064f89f54, 0x6db726ff29355f55,
    0x8dd66043c765a974, 0x1b115873fce146f9, 0x04dd254270693393, 0x16c45f80de0ffba1,
    0x549467a20cc69069, 0xe0a172ca8164df70, 0x09efd12045e5c395, 0xe9a794f8b5dcef2f,
    0xafa5825270ed6b2c, 0xfffcef6b3573dee4, 0xd3882e4d0032b528, 0x83b4ac1a2655d27b,
    0x207c71af0048aed1, 0xc1b7a7b339d48f9e, 0x2ab2aba82f87f1b2, 0x4c1c63054eef5f41,
    0xf3fd1aae96959b02, 0x8f3e85498fa7c5f5, 0x3d5e956706ef8f19, 0xac3e3170f4464555,
    0xf3e2afffa5840e39, 0x85bfff3f2a8f8e93, 0xc7919b082b0dc81f, 0x1829619539253fcc,
    0xbeb45889050b25ae, 0xc32e16e0d5fd3a4f, 0x96257fedbe1924d9, 0x5e7b162b82f15184,
    0xb19e843e4d871a1d, 0xf52f51e376092b7a, 0xf36e0772b22bd444, 0x4fabe0b29d36d2a9,
    0x8220aeb5d6ee2c96, 0x7137965b369a6bc6, 0x363f20e751d339cf, 0x8464b25fb4be498b,
    0x4d59bb751f24638d, 0xd1e972dda367cc76, 0xafe09e4938552b8b, 0xb6d48c6531176f44,
    0x7d171854e74a2104, 0x4490e04c3664f19d, 0x9d60c7acab664a28, 0x22bdfa4241c98f7e,
    0x6a50388194f4a7d9, 0xb90b6dcbf164431a, 0x4ccec6523b121830, 0xb26f071a0cc460d6,
    0xd61a25e5b74aca03, 0x6397853ac76f7c47, 0x6cb6eb48f2b8543c, 0xf9e6195099bcfee8,
    0x0b605d98481bee37, 0x530b45c620143cf6, 0xcf75397112509cf9, 0xcbd6608c7b9e36d4,
    0x7397538a95ef5a7e, 0x60c8f88db7af7f6e, 0x7989c7bf7ad40f9a, 0xf5847db7745c5bd7,
    0x22b025bf1f3d41a3, 0xf97a53dcffb6731a, 0x4be42a2052ac2bd6, 0x71c67faed69458a6,
    0x0d7803811549e6d7, 0xd1e0d486e57b5a54, 0xc6294ea212a28fab, 0xd4008243c8c3e344,
    0x68e7952daba91006, 0xd9b32776509bfdbf, 0x11909e10f10d0263, 0xc06116690c7a1bc9,
    0x6ce61e57c6495f34, 0x54087a7c03a89872, 0x3b4147a4fed93c95, 0x8526c6f9558c94b0,
    0x470daf29290f76e8, 0x29553d2603fc1d13, 0x7c73934c6704b17a, 0x5151bdaf947d3f64,
    0xd9f0dbbce0f29850, 0x15db96fd4394e703, 0x9207ecb6d0802916, 0xb757923264beeeeb,
    0xff5ddb996605cf3d, 0xb74bea84665ddbd1, 0x5b13c01b9262295c, 0x2c2656c1ba7c5561,
    0x342281da1678a8da, 0x7fc97460bcca1e51, 0xb0d8ec6108aacda4, 0x363ef1d984d2067f,
    0xf58eca1fef852cef, 0x2e207bb8f4738d8b, 0x6483c2b3d8892db3, 0x6c7e7b58e94cd71e,
    0x2dd91b8798d77b3d, 0xeb6802ccdc7b0435, 0xb1c0870234e1bcf2, 0xbb5a9756bf621723,
    0xe33e411b8ea8fbad, 0x674183bc4a65f23e, 0xbad0735171c1330e, 0x95a6e396fdfb5117,
    0x4ab28488945c7bd3, 0x468b3d54701a7dd5, 0x53881cf536939982, 0x232dfeaa625a8770,
    0x01435c93b2cbd1af, 0xda766033789c1771, 0x586514cba3883954, 0x135adf6ab99c8946,
    0x566d1758c3c1c84c, 0x0fddf9b104c2c2ac, 0x05f4f603ef860340, 0x5da78df6723d59ca,
    0x2e4499d2405f1799, 0xe9794248ca2a9a7c, 0xff277393d877b304, 0x17d889edceea9450,
    0xfb3c1197db19562d, 0x49cc241ff48417a3, 0x355e306fb9ce1458, 0xd9539581f2128261,
    0xad71ba556c3b704d, 0x384d7642f5dcca46, 0x034a9c2597f2049f, 0x5065c1f6ed32fefb,
    0x70612bdaed892fad, 0xcfb4c31b5a3d8402, 0x7cfbe66512ac6623, 0x9075d6e09739ce1e,
    0x393b3acbd56f937e, 0x3ef956d709d35d66, 0xf574c32939b494e8, 0xf43a38cd2aeecb14,
    0x0f2cc891e31749a4, 0x54035a90774c8d79, 0x817b3c61bdb188e0, 0x082712ff57ef92af,
    0x04b75912fd09e3fd, 0x96607be120a7f06f, 0x5bb82d37dadd63b2, 0xbaaa49fb01d1c92d,
    0x5c2a917050983d02, 0x2c1d1d5090cd11b0, 0xaee0e56641c491d5, 0x5644be398dc95a6c,
    0xb85894412cfbf844, 0xd5ccabd4d5dc8d8d, 0x2ad05e2606bfac56, 0xfd32c1357f06f65f,
    0x12910663454a2b84, 0xcccf61ea455d653a, 0x6bf786aa8ecb76a9, 0xbbda248b0fb85026,
    0x4ac36d5abea9a8be, 0x09a620542e44d275, 0xb82269e1cdeda893, 0xc437f41325cf0cb4,
    0xc862617a44930150, 0x31420c1bc800198a, 0x23c63ca1bbfef161, 0xe71492f9c76d4807,
    0xe18cc3f2fd7f5b05, 0x661499e763eb284d, 0xe72c6f666eb92c00, 0xe21d9f373ae1b432,
    0x3cfb6f8117bd8993, 0xf42f595092108d1b, 0x137ab70d6c9af4f9, 0x50e1b29d3be93b8d,
    0xa33e8b21ce596833, 0xa94c6f5e303bb855, 0x40b0e32efa2c602d, 0x6bdf9739aa0abd68,
    0xfccf16dd2a46dc29, 0x9c313b89d2889654, 0xa869bd3479e1dd28, 0x0df4aca74fbb573d,
    0x3461b5aeb3962068, 0x2509be185f5294a5, 0xe60b55fb6a7f6f07, 0x836f54be4e57ade2,
    0x2c8f15efa37362cb, 0x7dee2c82d4cefe38, 0x7a02d1e22f6baba2, 0x558195696aa71226,
    0x3884d92939ee32d9, 0x528503f27b1ca7fd, 0x18d711e6de8855b1, 0x1017e6d90dc573d1,
    0x4ccd3cd1f89ec1cc, 0x3876097891d1467f, 0x89ba28c7274b3da2, 0x30436d4c63c7ebf6,
    0x512c2030e5a043f6, 0x55995a89ca3fcf8c, 0xee938a0dd1911389, 0x8448e146748515ee,
    0xc284c335fc14bd93, 0x45354b76f77ca41a, 0x760ee039b2825e71, 0x73913c79e06a7d75,
    0x46377973581cc022, 0xc38e9326b02b18c1, 0xa5282849ab9376b3, 0x2a2a3035e6dc36e0,
    0x415ccc66d95c4b26, 0x12821336e9af207f, 0x627054c6fd8dae9d, 0xe359ef98af3bd61d,
    0xefebc11c9f575739, 0xc75c253cabf5fac5, 0x2c51560679cd43ff, 0xf6652cacfda4ba2f,
    0xa69721a3cac35318, 0x61ccfd0e3e51e2c6, 0x84d140377ff78e67, 0x7aa8deb141d096c2,
    0x15cc7b12d02a9d5d, 0xba7489dbddcf079d, 0x6895f46a9981a0cd, 0x07ce02ed77f53b0e,
    0x453783ebd83c26d7, 0xd8e1506eefc6a24c, 0x86dded78e02ebaa3, 0x5e5d867d8571c70c,
    0xecb420399233ed2f, 0x9ea0f461ed38c424, 0x3aa4309898470112, 0xcb89b6eb37bbb2ab,
    0xe71617bcf9d389ec, 0x2be726c7d65d7f53, 0x8e3505c19883a344, 0x61f3ad2483c47625,
    0x48b2d1a36a6d3589, 0xa6e76d0aaf34781e, 0x38927049deb643ca, 0x1eecf3975d69f648,
    0x1bda1e8bf6382439, 0x76ae47886c392f79, 0xe9ca0d6bcd8470a5, 0xf17b49c373a8ccce,
    0xd11c690087bc93da, 0x04e8bf9ec535fd68, 0xbd3697c298398c1d, 0x73981b234c954041,
    0x1f002ea706b45fb5, 0x7a0df8b79e964ce4, 0x65919a427000fc4d, 0x82fba4b686bc3b3f,
    0x1a0273e79168c5fe, 0x613892356c38b0f0, 0xf5d2fef1b955d21f, 0xf0abb6b9d29035dd,
    0x967fbe753eeaf163, 0x49942dd57305640a, 0x5689c1c988bbda88, 0x2e3f6c7d5d220ec1,
    0x2483224011d46ead, 0x9d192efd9297ab76, 0x4928f64f8f67c7b3, 0x09725ad813213d01,
    0x94c6c0c20a160b79, 0x1bed7dbb4e446d93, 0x5103d70a5b8ae202, 0xbf99824a82a02163,
    0xcad98ff5facc30b6, 0x5c89d8716c220e59, 0x9d92136e3eb7d63b, 0x58e8982bcc94e7a0,
    0x353e74ac050c804a, 0xe0fe1a38e88a831a, 0x413569f5345d973a, 0x3506a5b25fa24b21,
    0xee98954c2c1eb44e, 0x5c8d7303f73ce2ec, 0x8444f3d189673101, 0x7f0192633dcc9603,
    0xab64d42300affb68, 0xddb304eb5a566d1f, 0xfdb56324071c547d, 0xed18de12fe541baa,
    0x5ca1699b9f41d160, 0xfe09390bc9ec03b8, 0x455c66cc02e50782, 0x7ab106e12fea579d,
    0x8d9543144f23d187, 0x384134fcc0ea1688, 0x59eb7671e756552d, 0xee870cd3317ae96e,
    0x5139f94098cb545d, 0xd464c581cf412e7e, 0xef5c95f597157b87, 0x8ca76d3d25585927,
    0x3b6c15530b75fdff, 0xf2d11cbb84729947, 0x85b24ce194a5f06f, 0x3f766dfa72ebab78,
    0xb8e0c25764c9fd1b, 0xf0cf98e6ee850e9e, 0xea14de8adac4d7e8, 0x935f8484444b7387,
    0x1c1629c61b4b78f0, 0xa76bdf9bd8b61c6f, 0x862a8b7589132ca2, 0x2f318826645c9040,
    0x7b8ddb856c0489c7, 0x3fb540ae6085e6af, 0xe7fff60094d11503, 0xac6440836f09e350,
    0x287cedd3eb16485b, 0xb54b83777c1a1db4, 0xd05aa69932f5b93f, 0xb0540569b2f38d77,
    0x2ef677727645a002, 0x0e72b25768751b73, 0x3ac7b6e5ac297bb6, 0x61c583ab686ab860,
    0x6f84035c6506fca9, 0xbee4acb8047ea928, 0x09ffc17844b27279, 0xd59e3392371b6587,
    0xe0b8eb9c1c6691f0, 0x5350b2e9727b19f8, 0x312e3d1f475fe4af, 0xd91e3b6c2abfbf39,
    0xe96ab3263f2a1acc, 0x60f01940a31195f3, 0xf4a9a60cf9ed7c6b, 0x706559928114d8c1,
    0xf700a5527e76e2c1, 0x85162a5a53415582, 0xb67c15b6c2ae64ec, 0xdccc53946655a4c9,
    0xfb26658258e07afa, 0x4042789a90727212, 0x384966b5c0a3c854, 0x217596ffee722323,
    0xf83feaa44c380c3a, 0xf28be2c7b31629eb, 0xffcb2d75b2ff2c25, 0x4d620aeb4b5461a9,
    0x3a281d956409316e, 0x767a2ae671297d05, 0x492e055529530767, 0x2a5ecde04d1ef3ed,
    0x0bef40d414f724f7, 0xa6b17f906de9303c, 0xe4c7fb5f7bb7d7ed, 0x0908308016a5dc66,
    0xf443353dc821b5e5, 0x2820439cd50ef449, 0xb5a545c656cc222e, 0x64c4120289212236,
    0x66482f7a88f03f11, 0x5dcd1235490336e4, 0xff6ddeb6234db8bc, 0x360f1ed7e2b2c5f8,
    0x38fb504018708b0e, 0xd22c98ca8d53e439, 0x62e8a4dfe0420c3e, 0x401a20243f9f2ed5,
    0xeb2b956897cd0ea3, 0x3f7c97a3d8366600, 0x329951502d8ec804, 0xbbd7c11c873b6b1e,
    0xcdd3d36bc4b1aedc, 0xd6226f9a2fb0d011, 0xaf8892add5387089, 0xcc096b493f68f5a9,
    0x74dc44470b289054, 0x77d60bf042a51ab4, 0xfdbed6626543531e, 0x8bd985d1e8bfaae4,
    0xc1ff8ae3a5f92b95, 0x9ada59322c05a746, 0x566768d692a92f1d, 0x963a5836e5faddc6,
    0x551fc4dc83ebc48a, 0x76a58b0925dc1e21, 0xbfcff34c88e897b4, 0xd6be015ff7947b3b,
    0x6e0487c311da93f3, 0x12d1817862bb6e34, 0x7b0e90f345936c5f, 0x3951535e4b4aaa96,
    0x6e33963f7c507367, 0x30bfc75677a5adf1, 0xda7c6c383acbe5a7, 0x710d7bdd91910403,
    0x9d158d1c47f982cd, 0xb7a9f99992b606b2, 0x3fa476e295f0e6a3, 0x7935ea2dd2055818,
    0x6c7bb1e97a52e0e4, 0xb577ec6d1a88f578, 0x65282320ecaf5f44, 0xddc6bd3b4d1a3104,
    0xd3129ac03b4d2931, 0x9dbbd373fe49ee5f, 0xccbd3603542af932, 0x231f86104440d615,
    0x32c1210bd278d223, 0x2999980467f81410, 0x96c7a1b790fbf32f, 0x8a95481af3055287,
    0xfc1adab258302677, 0x12af34f70a052030, 0x13f5ae5f213b2d17, 0xe6dc604dd12eced9,
    0x34d8f3af2e985f96, 0x7db65e97ce8e60f5, 0x456b8eadbb3b1b88, 0x269335c23ac92e8d,
    0x37e48fb4c8a29643, 0x8ccd1ed7900e6eab, 0x389083436d2c0aa3, 0x0d9bdb635147b570,
    0xf00a9c813bccc77f, 0xaa3d6b33cae07524, 0xf2641dd1711f0222, 0xf165983dcc21ed74,
    0xb760f4ffeb97cf72, 0x842eee82844e070e, 0x4dee102362b5c2c2, 0x0d431b14b50c1c2c,
    0x4c0b65c7d27ba155, 0x5c174ed0f8c70f98, 0x4e6bb62ee3692706, 0xc8e86458691d9673,
    0xe6c312d5c26aea04, 0x9cb4df18f80de995, 0xf8d59e0065c98cda, 0xc90acaabdda15cc9,
    0xa115debb0ec11f83, 0xff9ca188218545a4, 0x41ff40776f2e52d0, 0x0726415d57684a13,
    0xe986926a14827475, 0xe212b2c4bcf3b716, 0x4470d4220d099a25, 0x16933238594da359,
    0xd63eabb892bc58ee, 0xe7137afa69294c4f, 0xfb22b25e7a390a06, 0x7475fe0013b8c8ea,
    0x424c5109aa86fbe5, 0xe97191e1769c310e, 0x18b86049e3727e1b, 0xf7e57a3bf18c713c,
    0xbf6d15b494899700, 0x27e97015fa249496, 0xaf48ec1366a46640, 0xff6a253599322119,
    0xad58b471f0f5c659, 0x71d5535773c9efd8, 0xb85d26d60982eac3, 0x3dc2c46d5fd23920,
    0xe162ed52e06d3b04, 0x9b95edc4f5f06862, 0x0598d182edf93dd7, 0xa83c3b8025771cb0,
    0x4eeb94ab49719165, 0x8315287e2612312e, 0xe3fac8d8e3c15084, 0x7e8c0e7f96e491d0,
    0x46ecbc38d07d82bd, 0x932fe8fa0492c8cd, 0xc3c73c4404bb517d, 0xc4a4ff447a98f34f,
    0x4ce8a3a2d9bcd063, 0x422ec03893c4c627, 0xa016d9cf4e5a44a9, 0x50774932f785334e,
    0x45da66c996590d4c, 0xd1c923c7ebb45ff6, 0xa0201a319fc173d0, 0x304467e49218a3ee,
    0x4500bb551c7a24c8, 0xe18ca26c3063ecc8, 0x1a6cbf5ca76640be, 0xb1efb55013a85f9b,
    0xde8c6dc9d61efc66, 0x6cac0f39c2208833, 0x0dd25efca3f2ecfd, 0xb5b85b08787fbcff,
    0x0b12b4d81f8dcadf, 0x5ae13420227508e6, 0xcf31a566c409a17a, 0xd80dee7b384556cb,
    0x06d7cd7e94d32c80, 0xafa85bccd0b9b057, 0x6a9a658602317718, 0x0ccb1769e5b96ab4,
    0x9963aa4e37f756f2, 0x6a8812e02f9c417d, 0xd034fe9b8b9dbfa8, 0xfb96804cfeb42eb9,
    0x7d12bc04798ff8d8, 0xc8990e84afb5dbf2, 0x507e001909340bca, 0x79d91bc1aa62e6ab,
    0x1a2e1fd7a0b1eab1, 0x4bb31de1c6e702e4, 0x66c9ddfcce034f2e, 0xa878bd13f1c24dc9,
    0x71eb7ffca99a5954, 0x12ba0d161d21c435, 0x47c8fb56660b4fdc, 0x1177eb8201a62225,
    0x51fe9c945c26d3cb, 0x87c76bca9d5853e2, 0x14c0acbe99b657e0, 0x04f735fbc48f6562,
    0xab5c8103a7a411af, 0x0f2e089cec7fcd9b, 0xfc2d94fa0506dc0d, 0xba1de665b2dfa2eb,
    0x77eefbcb3a25d299, 0x01dabff08cf28230, 0xc0f850642271c481, 0xcbff21bcb22cc345,
    0x5dcf3dae66477b9f, 0xc658d690548123e0, 0xc769e4795d7fd8a5, 0x7790f22b60648910,
    0xdf408a0f1655f528, 0xc6311888cb8cb5b1, 0x8b0dda84b5189058, 0x1b65702c7d7ad64d,
    0xdecdd8fabd088410, 0x4c1dd873715dd20f, 0x887074a51cd24bb9, 0x6341e30d8791b037,
    0x551ed81b1fb8c971, 0x49bcffc8b61587e7, 0xbbe684386cd52185, 0x67b4d7e7cdfabae9,
    0x4e2ad44f87380618, 0x07e19cbeea8e5df9, 0x7eada030c796e226, 0x2a88e22290b4bc5b,
    0xb1a266b82df791a4, 0xfb060a692e274c82, 0x8bfe0b10cebe7b74, 0x7714d9b8d26cc151,
    0x0f12f1bc4e64995a, 0xc5e3770b52a95c7d, 0x9283672210d0a603, 0x42e8ca0c28006123,
    0xd2c1d6f0a504d4b5, 0x57d606251e4b6297, 0x97ab627f9ebaac3d, 0x1802ad084a40b7ee,
    0xde485b584d25fe4e, 0xa4ef41a3ebd3df48, 0xccc3578359b802ed, 0x8df9b1f3f3f49c7d,
    0x85b6abf0c606f70c, 0x554114dd3d8d1068, 0x985d026a7f460f9d, 0x8e5560b230feb4c7,
    0x51df2c778a890989, 0xea50cee593f59729, 0x19c5e08148afc7f5, 0xbdda3020ea353cf8,
    0xa8ac434f5ca3366a, 0x11191e7e6030ab54, 0xabb428570c22f096, 0xcbffa6c7d505cd22,
    0x71b6e242c416eb48, 0x2685175ab29dc7d2, 0xa28710a78f69c433, 0x9b5fd1eb0a7f001c,
    0x50eb2ca1ac40c6ee, 0xe34ed9bf12377a87, 0xf235264b90c07d99, 0x306f367c42199e7e,
    0x564e284467d3544b, 0xf155da1f17c0ac65, 0x84ddf7e95df18f7e, 0x6cc4395f0820c9e6,
    0x01790b3f9cfa7ad4, 0x4e089880bfce6561, 0xdcaaf6c43c71db50, 0x9ec198597fff5b84,
    0x005eddc079e1e240, 0x0566c9bb6d22e0b4, 0xfff2538b4bd9b398, 0x1028a15522c2eeff,
    0x85b955dcbda77f1d, 0x93cf59849a59aeb8, 0x8c4b3815a7ff55cf, 0x6dba060e3f5885b6,
    0xd82b8809698f5db2, 0x16fe71563276d5df, 0xea37dccbc8c77463, 0xdd016ff9554c24cf,
    0xbb4836f4053b4f95, 0x51ab592e76bf29be, 0x49d19e9eca3bd724, 0xcadfcc47b6f0817b,
    0x14796ac2a8b7869a, 0xb315510d48e9e26e, 0x2ba4cc24f05aa114, 0xef5dce6e988e017b,
    0xcd10ce918777c58c, 0x4c8d9cefcc3b7009, 0x9a3d2c170e7dccdf, 0x34a25c96b0ccaa1e,
    0x5e84d82665537a1e, 0x65b0960f6e9919de, 0x08344eaeed12b8f7, 0x87ee91b07b16fa47,
    0x3c1a02a5560a072e, 0xbe3f7f6bba6ae3d9, 0xa5c1c01317b6e358, 0xc5781a12670b55f0,
    0x7545af3c95693b74, 0xe877ba43df90558c, 0x85b5599e0844924a, 0xca50f1f29848d502,
    0xe7943fbe56573a04, 0x30d2b30a09e1fcd2, 0x2726291cefa294ae, 0x8dbfb3dc5c2badab,
    0xfde12c28932a5fd9, 0xb9fe7a6cdd411252, 0x9969cc6018dce9a9, 0x9e86c535f7269201,
    0x79366ee60c42d095, 0x8ca316a3ef19feb2, 0xeed8562986837a48, 0x05077487fe09a6aa,
    0x20b292a7156b625f, 0x2f4d9dec9af7f8bd, 0xf1c4b1a6027a0038, 0x8c2d8078d88c0a93,
    0x30993ccd83f52bd9, 0xe07181e33e8d7a39, 0x811fb4f2a6566330, 0x3c4fef6d4488b049,
    0x8c8c450d578caf36,
];

/// The key of piece code `code` on square `sq`.
pub closed spec fn psq_key(code: u8, sq: u8) -> u64 {
    ZOBRIST_VALUES[sq * 14 + code]
}

/// The key that marks white as the side to move.
pub closed spec fn ctm_key() -> u64 {
    ZOBRIST_VALUES[896]
}

/// The key of `piece` on `sq`: entry `sq * 14 + piece` of the table.
pub fn zobrist_psq(piece: Piece, sq: Square) -> (k: u64)
    requires
        sq.on_board(),
        piece.0 < 14,
    ensures
        k == psq_key(piece.0, sq.0),
        k == ZOBRIST_VALUES[sq.0 * 14 + piece.0],
{
    ZOBRIST_VALUES[sq.0 as usize * CODES_PER_SQUARE + piece.0 as usize]
}

/// The key that marks white as the side to move: the last entry of the table.
pub fn zobrist_ctm() -> (k: u64)
    ensures
        k == ctm_key(),
        k == ZOBRIST_VALUES[896],
{
    ZOBRIST_VALUES[CTM_STRIDE]
}

} // verus!
