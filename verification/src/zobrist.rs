//! Zobrist keys: one 64-bit key for each cell and each colour of stone.
use vstd::prelude::*;

use crate::board::BOARD_SIZE;

verus! {

/// The state from which the xorshift64 generator starts.
pub const ZOBRIST_SEED: u64 = 0x6c62272e07bb0142;

/// One step of the xorshift64 generator.
#[verifier::opaque]
pub open spec fn xorshift(s: u64) -> u64 {
    let a = s ^ (s << 13u64);
    let b = a ^ (a >> 7u64);
    b ^ (b << 17u64)
}

/// The generator's state after `n` steps from the seed.
pub open spec fn xorshift_state(n: nat) -> u64
    decreases n,
{
    if n == 0 {
        ZOBRIST_SEED
    } else {
        xorshift(xorshift_state((n - 1) as nat))
    }
}

/// The key of a stone of colour `color` (0 for black, 1 for white) at row `row`, column `column`:
/// the generator fills the table row by row, column by column, black before white.
pub open spec fn zobrist_key(row: int, column: int, color: int) -> u64 {
    xorshift_state((36 * row + 2 * column + color + 1) as nat)
}

/// The key table: the entry at `[row][column][color]` is the key of a stone of that colour on
/// that cell. Every call returns the same table.
pub fn table() -> (t: &'static [[[u64; 2]; BOARD_SIZE]; BOARD_SIZE])
    ensures
        forall|row: int, column: int, color: int|
            0 <= row < 18 && 0 <= column < 18 && 0 <= color < 2 ==> (#[trigger] t[row][column][color])
                == zobrist_key(row, column, color),
{
    proof {
        lemma_keys();
    }
    &KEYS
}

/// No state of the generator is zero, so no key is: placing a stone always changes the hash.
pub proof fn law_keys_are_nonzero(row: int, column: int, color: int)
    requires
        0 <= row < 18,
        0 <= column < 18,
        0 <= color < 2,
    ensures
        zobrist_key(row, column, color) != 0,
{
    lemma_state_nonzero((36 * row + 2 * column + color + 1) as nat);
}

/// Every stone has a key of its own: no two that differ in their cell or their colour share one.
pub proof fn law_keys_are_distinct(row: int, column: int, color: int, row2: int, column2: int, color2: int)
    requires
        0 <= row < 18,
        0 <= column < 18,
        0 <= color < 2,
        0 <= row2 < 18,
        0 <= column2 < 18,
        0 <= color2 < 2,
        zobrist_key(row, column, color) == zobrist_key(row2, column2, color2),
    ensures
        row == row2,
        column == column2,
        color == color2,
{
    let n = (36 * row + 2 * column + color + 1) as nat;
    let m = (36 * row2 + 2 * column2 + color2 + 1) as nat;
    if n < m {
        lemma_states_differ(n, m);
    } else if m < n {
        lemma_states_differ(m, n);
    }
}

/// States of the generator that lie less than a table apart differ: if they were equal, so would be
/// the states before them, back to the seed.
proof fn lemma_states_differ(n: nat, m: nat)
    requires
        n < m <= n + 648,
    ensures
        xorshift_state(n) != xorshift_state(m),
    decreases n,
{
    if n == 0 {
        lemma_keys();
        assert(xorshift_state(0) == ZOBRIST_SEED);
    } else {
        lemma_states_differ((n - 1) as nat, (m - 1) as nat);
        if xorshift_state(n) == xorshift_state(m) {
            lemma_step_injective(xorshift_state((n - 1) as nat), xorshift_state((m - 1) as nat));
        }
    }
}

/// A step of the generator can be undone.
proof fn lemma_step_injective(s: u64, t: u64)
    requires
        xorshift(s) == xorshift(t),
    ensures
        s == t,
{
    reveal(xorshift);
    let a = s ^ (s << 13u64);
    let b = a ^ (a >> 7u64);
    let c = t ^ (t << 13u64);
    let d = c ^ (c >> 7u64);
    assert(b == d) by (bit_vector)
        requires
            b ^ (b << 17u64) == d ^ (d << 17u64),
    ;
    assert(a == c) by (bit_vector)
        requires
            a ^ (a >> 7u64) == c ^ (c >> 7u64),
    ;
    assert(s == t) by (bit_vector)
        requires
            s ^ (s << 13u64) == t ^ (t << 13u64),
    ;
}

proof fn lemma_state_nonzero(n: nat)
    ensures
        xorshift_state(n) != 0,
    decreases n,
{
    if n > 0 {
        lemma_state_nonzero((n - 1) as nat);
        lemma_step_nonzero(xorshift_state((n - 1) as nat));
    }
}

proof fn lemma_step_nonzero(s: u64)
    requires
        s != 0,
    ensures
        xorshift(s) != 0,
{
    assert(xorshift(s) != 0) by (bit_vector)
        requires
            s != 0,
    ;
}

/// The row `row` of the table holds the keys that the generator yields for that row.
spec fn row_matches(keys: [[u64; 2]; BOARD_SIZE], row: int) -> bool {
    forall|column: int, color: int|
        0 <= column < 18 && 0 <= color < 2 ==> (#[trigger] keys[column][color]) == zobrist_key(row, column, color)
}

/// From step `low` + 1 to step `high` the generator does not come back to the seed.
spec fn off_seed(low: int, high: int) -> bool {
    forall|n: nat| low < n <= high ==> #[trigger] xorshift_state(n) != ZOBRIST_SEED
}

const ROW_0: [[u64; 2]; BOARD_SIZE] = [
    [0xf8fb42ae1adc67c0, 0x286326e623162f0f], [0x76a54335ae182091, 0x3d48ffa76e7e1490],
    [0xf6619127e4c7ccb9, 0x0b0521b0f9aa4d60], [0x1f9c2e34389241fa, 0xa38664ec8bbe5bf9],
    [0xeb252ef1845cf90e, 0x9eeb36d169b3c37c], [0x0a60c62f280bfbfa, 0xc0507edcaec0528d],
    [0x37b1a7630f08d168, 0xf9455f10249b9aca], [0x786ab7eeef935f7f, 0xa75b3e2031764601],
    [0xcde3cef4f1df0acd, 0xe1883721c197a798], [0x48b8f111cea06ed7, 0xac9f6cacbf687bca],
    [0x9ce68855000b19bd, 0xad7e67f14a66c0ce], [0xfd029c9714c5fecf, 0x122a3667f9ae26f2],
    [0x5dce36d59574863f, 0xc0c54a03f25e00f3], [0x15177a696240e032, 0x3eb49bf9665e2d72],
    [0xec29ad33dde78da8, 0x4a78ad36636c28b3], [0xe4537ef429f2bc22, 0x4ae13529c93e11da],
    [0x64b0aa30a1e15b79, 0xd7f474465c85678f], [0xd49cfd8180946e80, 0x63aac2b5e7e4e65d],
];

const ROW_1: [[u64; 2]; BOARD_SIZE] = [
    [0x36e05507d87b18d1, 0x62917b7b5f57faa0], [0x9404ea3779e9fd55, 0x0b50249fe511dbef],
    [0xb0c7142c62e0e398, 0x6867219d16d0c45f], [0xd9cf2acea4699217, 0x9b91f1b158e124f3],
    [0x8edcd8175273ba7a, 0x098ea0d0906a838e], [0xeb5f6c8e91897509, 0x4146a36ecb1005a3],
    [0xcdf0889e88e32d68, 0xe3394e188af0b132], [0x9c9f8826a84f5cd0, 0xba6a5130f180f669],
    [0x5e910ab875194dc5, 0x6f1f5c223624ae1e], [0xdc34f1922f24a0c2, 0x30be158b644c9903],
    [0x3c0a82f4b36020f1, 0x15efb0907ff0fcf0], [0x6a1b3d4cfebc2109, 0x82155f0e3a7e3b0b],
    [0xcb458cbbb59f65bd, 0xc5dfccc961f69436], [0xe652d51b352ab49e, 0x1c3a6e2513900677],
    [0x32c24b3f0a0e5bbb, 0xb90698ddaf63c9cc], [0x441e7c864f48fd5f, 0xda92b4803888db65],
    [0xe0f6b5b16685b393, 0x068a3eff6b3e3c34], [0xb1a843fc0779cd4c, 0x618e5dcec301edd6],
];

const ROW_2: [[u64; 2]; BOARD_SIZE] = [
    [0x7e28ac29145c5b8d, 0xc00561989ae7a07a], [0x50add24b854131ba, 0x3c7da3c75e829d59],
    [0x0c1b04e0ff75ee23, 0x462ea951844aed3f], [0xb3f44056c614d725, 0xf0c38d365bdf97cb],
    [0x99e5e828463cba24, 0x66f53c9b9a7aca50], [0xc67256263d3eabc4, 0x74ea2b8fa4b0a793],
    [0xe0b7eee3071a421c, 0xaf69c692acf77198], [0x5ec050a9a8b7f97b, 0xca949d1b79a5a849],
    [0x6212bba03187d159, 0xd4dba49cbb4da8bb], [0xe62d6b1e1e127d2a, 0x20c3e7a54fb45350],
    [0x1d11e464bdb9eff6, 0xb3b607bb6415a1a9], [0xa078aeee22d4c0aa, 0xf40d8709d4e203ab],
    [0x8db81b9225664d6c, 0x18d6e9a424fe5af6], [0x97aa991e2ff9dbc3, 0x59b1e309a7c0b8b4],
    [0x89a7d1317a3d94c5, 0x8872b7e2d86c7eac], [0x3d5ee31b93b48d51, 0x34605a7af80c900b],
    [0x89b262c24b0febeb, 0x3b881dc82ce66efc], [0xcc89eb9372b99d21, 0x1587e1f0c529865b],
];

const ROW_3: [[u64; 2]; BOARD_SIZE] = [
    [0xfd2436b519272397, 0x9a70cde40e8f6810], [0x2b90c4396dca72c0, 0xbfd781f98f9f5625],
    [0x8da38248f20341c9, 0x6e705f2ca11a150a], [0xa46d1861bb3c23a0, 0xdddf8b3554f8b3e7],
    [0x8b327feba0815b40, 0xee9e6c116f1289f6], [0xd1bbc9d0fa9a1165, 0x038daaa107c9dc07],
    [0xc52d212fd0cfae7f, 0xf4ca5814d48c4ee3], [0x18b7fcd54a968ebe, 0xf8ba27c30c31cc23],
    [0x38a9bd743128c77b, 0x6556220fdbfe2835], [0x4dd00b480c8f7925, 0xbdb8d8154d428e97],
    [0xad4bc80cfa3d4e4a, 0x5229494209ffe656], [0x6f2d17d396eb4c1a, 0x5bc50ee95a92dc02],
    [0xd00cfbd10564b93a, 0x227ee40594f77ec8], [0xab6f318609b22235, 0xd367158ffb0d6b31],
    [0xbfc252b4b1899da7, 0x2e66ff7e8781075c], [0x8bc949991e805252, 0x9e84935a8a0f8676],
    [0x37c885f6c5c0c4fa, 0x44d0303e37033bf3], [0xf0358088ae55a144, 0xf875e0fb2845db06],
];

const ROW_4: [[u64; 2]; BOARD_SIZE] = [
    [0xe512b8fed6635130, 0x4284ca8d6e19db92], [0x41635e02508b4ca5, 0x8e806ce0b995d37c],
    [0x04510cdee849a7da, 0xad69a26377218215], [0x962b14c5814fe451, 0x721189d93a8c4fd9],
    [0xb407bff6a01d8106, 0x713b6d188d153b84], [0x8427f021bfd770f3, 0x7a7e4e81e2ce82d2],
    [0xeeb22bde545feb57, 0x4fb07659c0e56141], [0x304a74f05192dbc3, 0xd256cbc153976eb4],
    [0x73d90e0a03ef6d69, 0xaf6a7dd69278c9f3], [0xfc9c7e66f11024a0, 0x71bef9da25bd2ce9],
    [0xc3f60057c2c04cf0, 0x0004a86e341af069], [0x6c421db74f51ffc9, 0x14c08926d6a58e76],
    [0x33449c1eb27198ea, 0x280e841822d8015b], [0xcffbd22eab848799, 0x4274755216ad48d6],
    [0xda96ea797f46e7c7, 0xebe377e877697bc8], [0x0ffae0b7e4de5b3f, 0xdb632bd9e774c849],
    [0xf156061b37b31399, 0xa5af54fbe897b3fe], [0xdcdbd0118ae7a319, 0x028b9a7cf0478a1f],
];

const ROW_5: [[u64; 2]; BOARD_SIZE] = [
    [0x69de5e702c9062cb, 0x55ffb244c51490ce], [0x2b9773f50f7d4a6f, 0xc71f2747050acb3b],
    [0x736309c3700f706d, 0xb065e770b0a4d5cd], [0xc19f22147c054f26, 0x0809ee5b643a4c38],
    [0x3a1a2c15f8a636a0, 0x3b29da3a9994d2cd], [0xa85a738fc39ae828, 0x5e3113aec852d7f8],
    [0xfadff420c3268c57, 0xb36a6e8ef397348f], [0x707d1dc45f60d926, 0xe86a349d36e49114],
    [0x6d6e2e7a1de39d36, 0xf7cbea2e4d81d78c], [0xf429a8e425d8b723, 0x4cb85cb2d040ae8d],
    [0xf2cf3a83e93a2c90, 0xe7e3b2c91c637cc9], [0x5856165ca9fda870, 0xeb630df1448a4f20],
    [0xb59d05c3ea0893be, 0x71e8c96ca7bdad19], [0xc6549f55443cb003, 0xc26fa48c24dea9a3],
    [0x8e3c6045e6691c30, 0x68531df85074c208], [0x9449849276bda98c, 0x5e30edc72bb531df],
    [0x724ec58b766dcc7c, 0x038ad0eb53b588e4], [0x72f527306c865af5, 0xce54c1db70974b00],
];

const ROW_6: [[u64; 2]; BOARD_SIZE] = [
    [0xb7ef651f41e8a596, 0x738a37d9b34ad15d], [0xf27cf2d4efcdb3bf, 0x2b1825e14d392718],
    [0xa7468e4dc3a59356, 0x26c82e0c98cccdf0], [0x7f91f88f7ba6286b, 0x6fa9847874201efb],
    [0xd04bd9c88f1c8006, 0xf152bfffb82e7886], [0x833715ca083ec5f7, 0xf185de26005925bc],
    [0x72f7615f8f4978f7, 0xccceb3b9a29b37c6], [0xf346d73371b93029, 0xd91f46508f016809],
    [0xcb897b9752764899, 0x28c6365d6cc3a248], [0xee34a585fca3b70c, 0x5e3a4088cf92b362],
    [0x0997d65271c50e84, 0xb40f28314e87a599], [0x766fe163a064ec92, 0xafdcd55f601b41cb],
    [0x9b40b74a7b226588, 0xdb0e7c26ed7a4343], [0x7d36d87ab8520705, 0x5fa9cee99dd5c24b],
    [0x4feb1306b5c99b0f, 0x89b9217eae572bf9], [0x1e779e2194625bee, 0x7b81c2b7cd13a4d9],
    [0x6997b094b95b95d0, 0xc55b451c198056fb], [0xc3e3a1535a558896, 0x05bde8ae549fc607],
];

const ROW_7: [[u64; 2]; BOARD_SIZE] = [
    [0x5d2adc76e791984b, 0x97a2f2e64e47c9bb], [0x46dc13647bce48e8, 0x3f72ee485544ee79],
    [0x442c811cbad0d9e5, 0xc57351356e83a116], [0x0032f634973c23d4, 0x467ce6dae8462e93],
    [0x3259e73b45d3660e, 0xeb9fa41f2dc48342], [0xed6b9c8bc75f9ac4, 0xbc96f976dd8d14f1],
    [0xc67ab158d4dd1298, 0x8058e852ed190ebd], [0xbd5c4e34489733e0, 0xd1a235c528b8e587],
    [0xddd38533bb78158c, 0x9f5f18cc0df406a7], [0x543ec43526eea76a, 0xadf357e6e2afe0a4],
    [0xefc965a8544c1665, 0xed05bda4fb3fb709], [0xdb09570cdf8b2a27, 0xcac39e10eadc55b3],
    [0xb8e86d18351ae1d8, 0x4ef9c28b5bc5a21b], [0x8705e8139767cf9f, 0x11e6b5589fc907c0],
    [0xbd1ac57237d165cf, 0x3161fc33a2d654c4], [0x800932452844496d, 0x8fcb60354f553abf],
    [0x4692fde9e9c6df0a, 0x27bcbfd7302bd034], [0x1be50813fb910a94, 0xc88c8b6302740d81],
];

const ROW_8: [[u64; 2]; BOARD_SIZE] = [
    [0x0ca49b7c9377a5da, 0xa0f41906bb217c11], [0xec6fc4ea64d81aa9, 0xce1867e5c4fa20dc],
    [0xeee9fd04b2da639d, 0x23f97b206160901a], [0x97409ae844f117ba, 0xd7b0bcc63ce05b15],
    [0x96f12c777e2bfee3, 0xca73f7dd864871de], [0x1ad4155c0c1956bd, 0x4ea25af04e236b50],
    [0x52d33d8db803f986, 0xaa39f6e263575ff5], [0x7637428cc1acac0a, 0xb1425a074921b7d2],
    [0x977cc40db95e403d, 0x1c62f2b69a4153fd], [0xd1cad300516a8e1a, 0x938339ce61a49d86],
    [0xf5718ff1ed8a753d, 0x9f4ee9f33f458e97], [0x9cfb1c13391e404a, 0xed0aa82ccc612e4a],
    [0xe6f87f35d5573e96, 0x18e4e1d5e636f56b], [0x4685dc7c5a68a241, 0x7bce1ae6aa36c345],
    [0x6d9d8f4a8dbcdf83, 0xb34def80a19826fc], [0x0e29045e916f29b1, 0x0940b6bce5f5bba2],
    [0x1704a81fa68ef855, 0x27ec989944bd50e5], [0x2b4ba9979574b304, 0x0ddb4bab47d61b62],
];

const ROW_9: [[u64; 2]; BOARD_SIZE] = [
    [0x9a493071781b2fd4, 0x9fa662f820cc6c8b], [0x7b0648230323b692, 0xeb49da23d1e4157f],
    [0xa7136085a8c76295, 0x6ef92e0fac3ce910], [0x1fd0e8c688f8d4c2, 0x5199eb228a9255eb],
    [0xee2c025af6af6b80, 0x4ad799e7af46d557], [0xcd366cd8b17ded3d, 0x40a9e585118df9a7],
    [0x9696faf310cc6b94, 0x5aed98d064039643], [0x1ed516b475b861af, 0x831d61ce4a269aac],
    [0xeccdf9587573fc99, 0x2772f7f3dcb51d20], [0x5384fea3cbdb3f1a, 0x80661c1702a80fe4],
    [0x28163b1ecaa426fb, 0xfdb6bc41ba0bb076], [0xc6476d2c38b17a96, 0x7469e876980a7de3],
    [0xa3f78533dba971d8, 0xe883ad48d20f553b], [0x58deb7d5e07b6551, 0x08a2305cf67ee7db],
    [0xb5a8e46f15788cd4, 0x31ec451a1571c8cd], [0x8b4b11da3408b81c, 0x87499d6fc9952e6c],
    [0xeca60195e8e01f30, 0x072c6450decc130e], [0xec5daf5f5f4488a8, 0x09786ba4f6bf2bb9],
];

const ROW_10: [[u64; 2]; BOARD_SIZE] = [
    [0xdd370746c2b39bae, 0xfcf941e53e97d719], [0x0e9b3a0396121ef7, 0x95a8529e9873670a],
    [0x73e3dc65d3f30344, 0x79d0b12eec78b442], [0x63dbf472925115aa, 0x07868e7ffb879d01],
    [0x103fcf82f2c1f27b, 0xf5eefcd667a98f5f], [0x9aa6f99ec7eceb81, 0x535d33727805f216],
    [0xc1cd5d1d5b2fbc72, 0x3d92906522ecbf8a], [0x7fe080bf4c9dc475, 0x60d5dc08288142bd],
    [0x3bb61104ae274f78, 0xabf62746788bdfe6], [0xc4cf8f644ec3f1d9, 0xb42bd183086d207a],
    [0xc058e59af84ea4ba, 0x069e78e6a4665773], [0x9a74dd98f46f271d, 0x98e239c8068b9e13],
    [0xc0b2002d9c7d6def, 0x383c37836c4b0cf4], [0x3acdf122561427ed, 0x54ce4e0fba8854e2],
    [0xd06dbcc474e23ccb, 0xd743de07d7f9aa72], [0xe8b80454183e85a6, 0x2d583c6bcd41512d],
    [0xf4102e1c113438cf, 0xe6f5cd61e5fd837e], [0xdb9c904f26c967f8, 0xf5f8123b304c0b37],
];

const ROW_11: [[u64; 2]; BOARD_SIZE] = [
    [0xe3e5a24ba98abee1, 0x4aab99806c1233dc], [0x7fbcff50ef4b60bb, 0x7f6fafc9812eb8ba],
    [0xee24aff898038b4b, 0x6c2e3af165823e9d], [0x46fdb647db553da0, 0xbebb6b86d9aeffdb],
    [0x9dc8e760099134e4, 0xdf1bb939d449af8d], [0x5c03fa417f5f7f92, 0xa70ec9190e5665ed],
    [0x18d579de41a21266, 0x6f92c35bc86d0fc2], [0xa5d3c3ae0ffc655d, 0x40b70ef7f5ff6ad7],
    [0xe77a32810b10c1c2, 0x2fe1edd9748cd0c1], [0xffe2885dcd09d920, 0x688afc1c0ae58292],
    [0xe813183f61ecad17, 0x31d73ea752bcd18d], [0x711d8161ffc06b6e, 0x7b7a5f752138f038],
    [0x95bce42784f18fd8, 0xc00be851f3ee9ac7], [0x177b246e54931632, 0x75529f523705fc9e],
    [0x76f6730fcc4910e7, 0xf2c1628155855b06], [0x0a6f50913d785030, 0xfa1d1bf11230ac90],
    [0xa6592c9fba3fe9c9, 0x1e12a17e7f3cc45a], [0x6220bcb502dceb52, 0x94f3f5c4ce81c604],
];

const ROW_12: [[u64; 2]; BOARD_SIZE] = [
    [0x1e06459756bdc488, 0x5b2519ff55f29d01], [0x74a5ce1bb4a8187b, 0x2703206fc7de368b],
    [0xc9c2973fb9414826, 0xcfbc541db9090336], [0x7c405c40d93d1cb0, 0xd8f4bf55214c4a89],
    [0x011485d0f1f5505c, 0x1d3ec84bdcb12dfc], [0x7ccb594323b2b0a7, 0xe152c5d527411c06],
    [0xdb654c6fc1b45fbe, 0xb86e949fc9d51881], [0x44d4d75f45f0b2f0, 0x5cbe638d4e23ef95],
    [0x3a5516b07ba2ed0a, 0xa65d4368faefaa50], [0x7736f7f8a7b2e104, 0x490bbc026de945c6],
    [0xf24e91ea764126cd, 0x510b14e779bdb7c0], [0x9bbe099117853caf, 0x3c57d5d6895cfd16],
    [0x7a8907536e0bc16c, 0x0259c85329d60dee], [0x2f437d450f511a75, 0x5646ef9978458501],
    [0xdc837df837e26e4b, 0xb5bee64cc2715857], [0x485849ac72e74f27, 0x7911e8142ac7a879],
    [0xd3b7c77874a51969, 0xdbf064315c11291b], [0x90809cac44d22d89, 0xfe2fe4ddfa45cb92],
];

const ROW_13: [[u64; 2]; BOARD_SIZE] = [
    [0x64f5e041a0bbe485, 0x86b0ccd8558b120c], [0xbdde5aafebf50728, 0x175b6392a7ca2726],
    [0xb1d50cd44138bae8, 0x279a7a6853f3719d], [0xd5eafd80b1c7503e, 0x37900881094b111e],
    [0x651b5e873ac600bc, 0x538ea4e4025e23bd], [0x87d133ad38d1d0ba, 0x1bdb041857f51d9b],
    [0x0658cda6db6ef160, 0x821ee8767a4c7482], [0x514d111a92e38ceb, 0xcd0842b04cdc1132],
    [0x2bafc572d247a590, 0xeaaf3974cf0e4edb], [0x4a32fa6525d48486, 0x5190b63f9230cc0f],
    [0x923b1bbde4084e57, 0x8c4b1640c20f2b0b], [0xff64425c0a1a979d, 0x4ef35028adbce5f2],
    [0x7697b7d54e12a0b9, 0x093bac4823418bb8], [0xe6ab69559f4ce6af, 0x38842e3512da34a2],
    [0xaed518bb5870e84b, 0xe37da8b4d9457b5b], [0x9d31787fc018476d, 0x49a29fb428220ca3],
    [0x7f6aa04f0991007a, 0x24ca20652a397cfa], [0x70578b72a0ab7083, 0xd989ae95cc6266a2],
];

const ROW_14: [[u64; 2]; BOARD_SIZE] = [
    [0xafecc65926694aef, 0x6debe304a05ec3ba], [0xd26aac52c7a3d0bd, 0xec70d4d1c077185c],
    [0x850a03725fe2616c, 0xc4d09fcff2b47eae], [0xb033ac6cb43d7dd3, 0x4908ddfeea6013e8],
    [0x8f757529de5329cf, 0xfd6f164644a41c5c], [0x3d46542ce469c364, 0x684d704a0c7949e2],
    [0xb485e7b9a8ed83f1, 0x6660964459ce84b6], [0xeecfa9d29a34f43f, 0x39004815c8947217],
    [0xd9a86453363d3f33, 0x59ab37606be2e98d], [0x57e9a915d082ef1e, 0x684989d45cfbed40],
    [0x915e8a6d22254a9a, 0x5078b8b4157ee68f], [0x8b3f1a174f385882, 0x7882415735c648b3],
    [0xdd89b0f332ed88e2, 0x184744ef88102b73], [0xf037ac4f39aeb7e5, 0x6a6d02f57d18b3ca],
    [0x5fbe4562a7ed302d, 0xfd444a6abdf1410d], [0x6b3f7619bd6540cf, 0xf69b479acc4a598e],
    [0x030b8ec57d0f6ebd, 0x7c7a34d4a7b97f20], [0xf852fff844f1c5de, 0xfff3cded931891d5],
];

const ROW_15: [[u64; 2]; BOARD_SIZE] = [
    [0x41a1db31774c75b6, 0x8e54ea21c9b340dd], [0xf655ef66ecd3b11c, 0xca1c8712c139d17e],
    [0x1f5c034bea583d5c, 0xb7f2ccac58645a26], [0xfde4ac2224a2db12, 0x3a7e0f1927771a24],
    [0xd92a46d7d19bfd10, 0x2be993567ab18eea], [0xacc0cd4c65141777, 0x92d9e7073f070299],
    [0x4aa9533305528adc, 0x3bf260bc573318c9], [0x3417210a59326cb8, 0xdc669fe0004e2661],
    [0x5a2984c013d1026d, 0xa10a6a4071a99b29], [0x2ce1b02fecf7225f, 0x108550711d1bbbdb],
    [0x7195f85dfa6c1a6c, 0x383fc839eb63d958], [0xc9c4f26faabc48ea, 0x7d4ab2fac6104afb],
    [0xa89abc4fd78db4ae, 0x3e8b5b8795544447], [0xe9aed1b17df91d0f, 0xac1b4a3adb0e4cf5],
    [0x9625e0123eedcd2c, 0xfb73d80da32addb6], [0x9012da6a6277258d, 0x98d8b69edec70886],
    [0x782e1ccc7d866717, 0x42746c56d4344e19], [0x591ab124fcc680c5, 0xaae2fbee6d8f9c84],
];

const ROW_16: [[u64; 2]; BOARD_SIZE] = [
    [0xe4124a75645922bd, 0x1261262e83fe9fb8], [0x49b25aeeeba78c87, 0xb3c004932abf025e],
    [0x383a43c514d52bda, 0xb998790760d7370d], [0x7fba9e42497cfa23, 0x49ac29eadbbaeb17],
    [0x6df92bd3cbd7bb01, 0xe00a899186a0f437], [0x2034ee1ba328581f, 0x5618dfbd8ba5ef6f],
    [0x2d5df85d9ac69f71, 0x5c5460e69fa4ee0f], [0x95006eb7ae47c413, 0xf5746699f6de2f5b],
    [0x54b17854fcd925c5, 0x5b4c1fa2ca4d46ce], [0xb5c45ec5ebd7afc3, 0x8a901a5f40ab905c],
    [0x03950824063d507c, 0xf4307d2700d2b5dc], [0x926ded8ce3abe7b7, 0xbdb711dd1713bdb8],
    [0x0b819692f7e3f4c3, 0xe6ddc72c93bd63ea], [0x1567368ecee5a3ad, 0xf7483e46993123aa],
    [0x281514c7aae4eb6d, 0x7f28f994b21059fb], [0xd6c873b3db4d6788, 0x3098f26dfddd1f47],
    [0xe013025edbfb94b9, 0x507fbcef319e6dd0], [0x9a7f15d10fca250b, 0x04b489bb3cff9381],
];

const ROW_17: [[u64; 2]; BOARD_SIZE] = [
    [0x4759e7dddedeace6, 0x4a291617d72ae83f], [0x1e6ce559cb67522f, 0x24d8c54ca5f6f74b],
    [0x5aaa8c82cf23a865, 0x4ab44e7adbb15675], [0x04b0321cfbaf0999, 0x9691db61eb3d11ca],
    [0x973296e6f7445969, 0xed5955bd37a7ab9b], [0x9b3f8c0d9549620c, 0xefd8a22c17eaf3c8],
    [0xcf4bcc91435ed42f, 0x19d28ee268668247], [0xf44c14d518583e83, 0x43585ddf3fcb4e3e],
    [0xb2d6481334e49722, 0x7686f44b1454d68c], [0xba8792dcb5da5c21, 0x3093df2ab010c0d9],
    [0x8395968d176bf718, 0x4937eebf64b7e6f6], [0x31d2549e222ff4bb, 0x5c43c5f9a025e592],
    [0x3488c543f31c8ad9, 0xd8d4bf50699b258c], [0xd1af59662abef0c7, 0x0ce5b5972e835ce6],
    [0x46ec69cc8c2ba3df, 0x6d3084f8ad10e358], [0xe1a4c64a2d25149e, 0xc84dfdba20c7b937],
    [0xeeb6684ca5449b85, 0x25c37fad59bc53f2], [0x38c575f8c9cf97d5, 0xa767ea9e02375dba],
];

const KEYS: [[[u64; 2]; BOARD_SIZE]; BOARD_SIZE] = [
    ROW_0, ROW_1, ROW_2, ROW_3, ROW_4, ROW_5,
    ROW_6, ROW_7, ROW_8, ROW_9, ROW_10, ROW_11,
    ROW_12, ROW_13, ROW_14, ROW_15, ROW_16, ROW_17,
];

#[verifier::spinoff_prover]
proof fn lemma_row_0()
    requires
        xorshift_state(0) == 0x6c62272e07bb0142u64,
    ensures
        row_matches(ROW_0, 0),
        off_seed(0, 36),
        xorshift_state(36) == 0x63aac2b5e7e4e65du64,
{
    // The bit-vector solver needs the step revealed; the rest of the proof is faster without it.
    assert(true) by {
        reveal(xorshift);
    }
    assert(xorshift(0x6c62272e07bb0142u64) == 0xf8fb42ae1adc67c0u64
        && xorshift(0xf8fb42ae1adc67c0u64) == 0x286326e623162f0fu64
        && xorshift(0x286326e623162f0fu64) == 0x76a54335ae182091u64
        && xorshift(0x76a54335ae182091u64) == 0x3d48ffa76e7e1490u64
        && xorshift(0x3d48ffa76e7e1490u64) == 0xf6619127e4c7ccb9u64
        && xorshift(0xf6619127e4c7ccb9u64) == 0x0b0521b0f9aa4d60u64
        && xorshift(0x0b0521b0f9aa4d60u64) == 0x1f9c2e34389241fau64
        && xorshift(0x1f9c2e34389241fau64) == 0xa38664ec8bbe5bf9u64
        && xorshift(0xa38664ec8bbe5bf9u64) == 0xeb252ef1845cf90eu64
        && xorshift(0xeb252ef1845cf90eu64) == 0x9eeb36d169b3c37cu64
        && xorshift(0x9eeb36d169b3c37cu64) == 0x0a60c62f280bfbfau64
        && xorshift(0x0a60c62f280bfbfau64) == 0xc0507edcaec0528du64
        && xorshift(0xc0507edcaec0528du64) == 0x37b1a7630f08d168u64
        && xorshift(0x37b1a7630f08d168u64) == 0xf9455f10249b9acau64
        && xorshift(0xf9455f10249b9acau64) == 0x786ab7eeef935f7fu64
        && xorshift(0x786ab7eeef935f7fu64) == 0xa75b3e2031764601u64
        && xorshift(0xa75b3e2031764601u64) == 0xcde3cef4f1df0acdu64
        && xorshift(0xcde3cef4f1df0acdu64) == 0xe1883721c197a798u64
        && xorshift(0xe1883721c197a798u64) == 0x48b8f111cea06ed7u64
        && xorshift(0x48b8f111cea06ed7u64) == 0xac9f6cacbf687bcau64
        && xorshift(0xac9f6cacbf687bcau64) == 0x9ce68855000b19bdu64
        && xorshift(0x9ce68855000b19bdu64) == 0xad7e67f14a66c0ceu64
        && xorshift(0xad7e67f14a66c0ceu64) == 0xfd029c9714c5fecfu64
        && xorshift(0xfd029c9714c5fecfu64) == 0x122a3667f9ae26f2u64
        && xorshift(0x122a3667f9ae26f2u64) == 0x5dce36d59574863fu64
        && xorshift(0x5dce36d59574863fu64) == 0xc0c54a03f25e00f3u64
        && xorshift(0xc0c54a03f25e00f3u64) == 0x15177a696240e032u64
        && xorshift(0x15177a696240e032u64) == 0x3eb49bf9665e2d72u64
        && xorshift(0x3eb49bf9665e2d72u64) == 0xec29ad33dde78da8u64
        && xorshift(0xec29ad33dde78da8u64) == 0x4a78ad36636c28b3u64
        && xorshift(0x4a78ad36636c28b3u64) == 0xe4537ef429f2bc22u64
        && xorshift(0xe4537ef429f2bc22u64) == 0x4ae13529c93e11dau64
        && xorshift(0x4ae13529c93e11dau64) == 0x64b0aa30a1e15b79u64
        && xorshift(0x64b0aa30a1e15b79u64) == 0xd7f474465c85678fu64
        && xorshift(0xd7f474465c85678fu64) == 0xd49cfd8180946e80u64
        && xorshift(0xd49cfd8180946e80u64) == 0x63aac2b5e7e4e65du64) by (bit_vector);
    assert(xorshift_state(1) == 0xf8fb42ae1adc67c0u64);
    assert(xorshift_state(2) == 0x286326e623162f0fu64);
    assert(xorshift_state(3) == 0x76a54335ae182091u64);
    assert(xorshift_state(4) == 0x3d48ffa76e7e1490u64);
    assert(xorshift_state(5) == 0xf6619127e4c7ccb9u64);
    assert(xorshift_state(6) == 0x0b0521b0f9aa4d60u64);
    assert(xorshift_state(7) == 0x1f9c2e34389241fau64);
    assert(xorshift_state(8) == 0xa38664ec8bbe5bf9u64);
    assert(xorshift_state(9) == 0xeb252ef1845cf90eu64);
    assert(xorshift_state(10) == 0x9eeb36d169b3c37cu64);
    assert(xorshift_state(11) == 0x0a60c62f280bfbfau64);
    assert(xorshift_state(12) == 0xc0507edcaec0528du64);
    assert(xorshift_state(13) == 0x37b1a7630f08d168u64);
    assert(xorshift_state(14) == 0xf9455f10249b9acau64);
    assert(xorshift_state(15) == 0x786ab7eeef935f7fu64);
    assert(xorshift_state(16) == 0xa75b3e2031764601u64);
    assert(xorshift_state(17) == 0xcde3cef4f1df0acdu64);
    assert(xorshift_state(18) == 0xe1883721c197a798u64);
    assert(xorshift_state(19) == 0x48b8f111cea06ed7u64);
    assert(xorshift_state(20) == 0xac9f6cacbf687bcau64);
    assert(xorshift_state(21) == 0x9ce68855000b19bdu64);
    assert(xorshift_state(22) == 0xad7e67f14a66c0ceu64);
    assert(xorshift_state(23) == 0xfd029c9714c5fecfu64);
    assert(xorshift_state(24) == 0x122a3667f9ae26f2u64);
    assert(xorshift_state(25) == 0x5dce36d59574863fu64);
    assert(xorshift_state(26) == 0xc0c54a03f25e00f3u64);
    assert(xorshift_state(27) == 0x15177a696240e032u64);
    assert(xorshift_state(28) == 0x3eb49bf9665e2d72u64);
    assert(xorshift_state(29) == 0xec29ad33dde78da8u64);
    assert(xorshift_state(30) == 0x4a78ad36636c28b3u64);
    assert(xorshift_state(31) == 0xe4537ef429f2bc22u64);
    assert(xorshift_state(32) == 0x4ae13529c93e11dau64);
    assert(xorshift_state(33) == 0x64b0aa30a1e15b79u64);
    assert(xorshift_state(34) == 0xd7f474465c85678fu64);
    assert(xorshift_state(35) == 0xd49cfd8180946e80u64);
    assert(xorshift_state(36) == 0x63aac2b5e7e4e65du64);
}

#[verifier::spinoff_prover]
proof fn lemma_row_1()
    requires
        xorshift_state(36) == 0x63aac2b5e7e4e65du64,
    ensures
        row_matches(ROW_1, 1),
        off_seed(36, 72),
        xorshift_state(72) == 0x618e5dcec301edd6u64,
{
    assert(true) by {
        reveal(xorshift);
    }
    assert(xorshift(0x63aac2b5e7e4e65du64) == 0x36e05507d87b18d1u64
        && xorshift(0x36e05507d87b18d1u64) == 0x62917b7b5f57faa0u64
        && xorshift(0x62917b7b5f57faa0u64) == 0x9404ea3779e9fd55u64
        && xorshift(0x9404ea3779e9fd55u64) == 0x0b50249fe511dbefu64
        && xorshift(0x0b50249fe511dbefu64) == 0xb0c7142c62e0e398u64
        && xorshift(0xb0c7142c62e0e398u64) == 0x6867219d16d0c45fu64
        && xorshift(0x6867219d16d0c45fu64) == 0xd9cf2acea4699217u64
        && xorshift(0xd9cf2acea4699217u64) == 0x9b91f1b158e124f3u64
        && xorshift(0x9b91f1b158e124f3u64) == 0x8edcd8175273ba7au64
        && xorshift(0x8edcd8175273ba7au64) == 0x098ea0d0906a838eu64
        && xorshift(0x098ea0d0906a838eu64) == 0xeb5f6c8e91897509u64
        && xorshift(0xeb5f6c8e91897509u64) == 0x4146a36ecb1005a3u64
        && xorshift(0x4146a36ecb1005a3u64) == 0xcdf0889e88e32d68u64
        && xorshift(0xcdf0889e88e32d68u64) == 0xe3394e188af0b132u64
        && xorshift(0xe3394e188af0b132u64) == 0x9c9f8826a84f5cd0u64
        && xorshift(0x9c9f8826a84f5cd0u64) == 0xba6a5130f180f669u64
        && xorshift(0xba6a5130f180f669u64) == 0x5e910ab875194dc5u64
        && xorshift(0x5e910ab875194dc5u64) == 0x6f1f5c223624ae1eu64
        && xorshift(0x6f1f5c223624ae1eu64) == 0xdc34f1922f24a0c2u64
        && xorshift(0xdc34f1922f24a0c2u64) == 0x30be158b644c9903u64
        && xorshift(0x30be158b644c9903u64) == 0x3c0a82f4b36020f1u64
        && xorshift(0x3c0a82f4b36020f1u64) == 0x15efb0907ff0fcf0u64
        && xorshift(0x15efb0907ff0fcf0u64) == 0x6a1b3d4cfebc2109u64
        && xorshift(0x6a1b3d4cfebc2109u64) == 0x82155f0e3a7e3b0bu64
        && xorshift(0x82155f0e3a7e3b0bu64) == 0xcb458cbbb59f65bdu64
        && xorshift(0xcb458cbbb59f65bdu64) == 0xc5dfccc961f69436u64
        && xorshift(0xc5dfccc961f69436u64) == 0xe652d51b352ab49eu64
        && xorshift(0xe652d51b352ab49eu64) == 0x1c3a6e2513900677u64
        && xorshift(0x1c3a6e2513900677u64) == 0x32c24b3f0a0e5bbbu64
        && xorshift(0x32c24b3f0a0e5bbbu64) == 0xb90698ddaf63c9ccu64
        && xorshift(0xb90698ddaf63c9ccu64) == 0x441e7c864f48fd5fu64
        && xorshift(0x441e7c864f48fd5fu64) == 0xda92b4803888db65u64
        && xorshift(0xda92b4803888db65u64) == 0xe0f6b5b16685b393u64
        && xorshift(0xe0f6b5b16685b393u64) == 0x068a3eff6b3e3c34u64
        && xorshift(0x068a3eff6b3e3c34u64) == 0xb1a843fc0779cd4cu64
        && xorshift(0xb1a843fc0779cd4cu64) == 0x618e5dcec301edd6u64) by (bit_vector);
    assert(xorshift_state(37) == 0x36e05507d87b18d1u64);
    assert(xorshift_state(38) == 0x62917b7b5f57faa0u64);
    assert(xorshift_state(39) == 0x9404ea3779e9fd55u64);
    assert(xorshift_state(40) == 0x0b50249fe511dbefu64);
    assert(xorshift_state(41) == 0xb0c7142c62e0e398u64);
    assert(xorshift_state(42) == 0x6867219d16d0c45fu64);
    assert(xorshift_state(43) == 0xd9cf2acea4699217u64);
    assert(xorshift_state(44) == 0x9b91f1b158e124f3u64);
    assert(xorshift_state(45) == 0x8edcd8175273ba7au64);
    assert(xorshift_state(46) == 0x098ea0d0906a838eu64);
    assert(xorshift_state(47) == 0xeb5f6c8e91897509u64);
    assert(xorshift_state(48) == 0x4146a36ecb1005a3u64);
    assert(xorshift_state(49) == 0xcdf0889e88e32d68u64);
    assert(xorshift_state(50) == 0xe3394e188af0b132u64);
    assert(xorshift_state(51) == 0x9c9f8826a84f5cd0u64);
    assert(xorshift_state(52) == 0xba6a5130f180f669u64);
    assert(xorshift_state(53) == 0x5e910ab875194dc5u64);
    assert(xorshift_state(54) == 0x6f1f5c223624ae1eu64);
    assert(xorshift_state(55) == 0xdc34f1922f24a0c2u64);
    assert(xorshift_state(56) == 0x30be158b644c9903u64);
    assert(xorshift_state(57) == 0x3c0a82f4b36020f1u64);
    assert(xorshift_state(58) == 0x15efb0907ff0fcf0u64);
    assert(xorshift_state(59) == 0x6a1b3d4cfebc2109u64);
    assert(xorshift_state(60) == 0x82155f0e3a7e3b0bu64);
    assert(xorshift_state(61) == 0xcb458cbbb59f65bdu64);
    assert(xorshift_state(62) == 0xc5dfccc961f69436u64);
    assert(xorshift_state(63) == 0xe652d51b352ab49eu64);
    assert(xorshift_state(64) == 0x1c3a6e2513900677u64);
    assert(xorshift_state(65) == 0x32c24b3f0a0e5bbbu64);
    assert(xorshift_state(66) == 0xb90698ddaf63c9ccu64);
    assert(xorshift_state(67) == 0x441e7c864f48fd5fu64);
    assert(xorshift_state(68) == 0xda92b4803888db65u64);
    assert(xorshift_state(69) == 0xe0f6b5b16685b393u64);
    assert(xorshift_state(70) == 0x068a3eff6b3e3c34u64);
    assert(xorshift_state(71) == 0xb1a843fc0779cd4cu64);
    assert(xorshift_state(72) == 0x618e5dcec301edd6u64);
}

#[verifier::spinoff_prover]
proof fn lemma_row_2()
    requires
        xorshift_state(72) == 0x618e5dcec301edd6u64,
    ensures
        row_matches(ROW_2, 2),
        off_seed(72, 108),
        xorshift_state(108) == 0x1587e1f0c529865bu64,
{
    assert(true) by {
        reveal(xorshift);
    }
    assert(xorshift(0x618e5dcec301edd6u64) == 0x7e28ac29145c5b8du64
        && xorshift(0x7e28ac29145c5b8du64) == 0xc00561989ae7a07au64
        && xorshift(0xc00561989ae7a07au64) == 0x50add24b854131bau64
        && xorshift(0x50add24b854131bau64) == 0x3c7da3c75e829d59u64
        && xorshift(0x3c7da3c75e829d59u64) == 0x0c1b04e0ff75ee23u64
        && xorshift(0x0c1b04e0ff75ee23u64) == 0x462ea951844aed3fu64
        && xorshift(0x462ea951844aed3fu64) == 0xb3f44056c614d725u64
        && xorshift(0xb3f44056c614d725u64) == 0xf0c38d365bdf97cbu64
        && xorshift(0xf0c38d365bdf97cbu64) == 0x99e5e828463cba24u64
        && xorshift(0x99e5e828463cba24u64) == 0x66f53c9b9a7aca50u64
        && xorshift(0x66f53c9b9a7aca50u64) == 0xc67256263d3eabc4u64
        && xorshift(0xc67256263d3eabc4u64) == 0x74ea2b8fa4b0a793u64
        && xorshift(0x74ea2b8fa4b0a793u64) == 0xe0b7eee3071a421cu64
        && xorshift(0xe0b7eee3071a421cu64) == 0xaf69c692acf77198u64
        && xorshift(0xaf69c692acf77198u64) == 0x5ec050a9a8b7f97bu64
        && xorshift(0x5ec050a9a8b7f97bu64) == 0xca949d1b79a5a849u64
        && xorshift(0xca949d1b79a5a849u64) == 0x6212bba03187d159u64
        && xorshift(0x6212bba03187d159u64) == 0xd4dba49cbb4da8bbu64
        && xorshift(0xd4dba49cbb4da8bbu64) == 0xe62d6b1e1e127d2au64
        && xorshift(0xe62d6b1e1e127d2au64) == 0x20c3e7a54fb45350u64
        && xorshift(0x20c3e7a54fb45350u64) == 0x1d11e464bdb9eff6u64
        && xorshift(0x1d11e464bdb9eff6u64) == 0xb3b607bb6415a1a9u64
        && xorshift(0xb3b607bb6415a1a9u64) == 0xa078aeee22d4c0aau64
        && xorshift(0xa078aeee22d4c0aau64) == 0xf40d8709d4e203abu64
        && xorshift(0xf40d8709d4e203abu64) == 0x8db81b9225664d6cu64
        && xorshift(0x8db81b9225664d6cu64) == 0x18d6e9a424fe5af6u64
        && xorshift(0x18d6e9a424fe5af6u64) == 0x97aa991e2ff9dbc3u64
        && xorshift(0x97aa991e2ff9dbc3u64) == 0x59b1e309a7c0b8b4u64
        && xorshift(0x59b1e309a7c0b8b4u64) == 0x89a7d1317a3d94c5u64
        && xorshift(0x89a7d1317a3d94c5u64) == 0x8872b7e2d86c7eacu64
        && xorshift(0x8872b7e2d86c7eacu64) == 0x3d5ee31b93b48d51u64
        && xorshift(0x3d5ee31b93b48d51u64) == 0x34605a7af80c900bu64
        && xorshift(0x34605a7af80c900bu64) == 0x89b262c24b0febebu64
        && xorshift(0x89b262c24b0febebu64) == 0x3b881dc82ce66efcu64
        && xorshift(0x3b881dc82ce66efcu64) == 0xcc89eb9372b99d21u64
        && xorshift(0xcc89eb9372b99d21u64) == 0x1587e1f0c529865bu64) by (bit_vector);
    assert(xorshift_state(73) == 0x7e28ac29145c5b8du64);
    assert(xorshift_state(74) == 0xc00561989ae7a07au64);
    assert(xorshift_state(75) == 0x50add24b854131bau64);
    assert(xorshift_state(76) == 0x3c7da3c75e829d59u64);
    assert(xorshift_state(77) == 0x0c1b04e0ff75ee23u64);
    assert(xorshift_state(78) == 0x462ea951844aed3fu64);
    assert(xorshift_state(79) == 0xb3f44056c614d725u64);
    assert(xorshift_state(80) == 0xf0c38d365bdf97cbu64);
    assert(xorshift_state(81) == 0x99e5e828463cba24u64);
    assert(xorshift_state(82) == 0x66f53c9b9a7aca50u64);
    assert(xorshift_state(83) == 0xc67256263d3eabc4u64);
    assert(xorshift_state(84) == 0x74ea2b8fa4b0a793u64);
    assert(xorshift_state(85) == 0xe0b7eee3071a421cu64);
    assert(xorshift_state(86) == 0xaf69c692acf77198u64);
    assert(xorshift_state(87) == 0x5ec050a9a8b7f97bu64);
    assert(xorshift_state(88) == 0xca949d1b79a5a849u64);
    assert(xorshift_state(89) == 0x6212bba03187d159u64);
    assert(xorshift_state(90) == 0xd4dba49cbb4da8bbu64);
    assert(xorshift_state(91) == 0xe62d6b1e1e127d2au64);
    assert(xorshift_state(92) == 0x20c3e7a54fb45350u64);
    assert(xorshift_state(93) == 0x1d11e464bdb9eff6u64);
    assert(xorshift_state(94) == 0xb3b607bb6415a1a9u64);
    assert(xorshift_state(95) == 0xa078aeee22d4c0aau64);
    assert(xorshift_state(96) == 0xf40d8709d4e203abu64);
    assert(xorshift_state(97) == 0x8db81b9225664d6cu64);
    assert(xorshift_state(98) == 0x18d6e9a424fe5af6u64);
    assert(xorshift_state(99) == 0x97aa991e2ff9dbc3u64);
    assert(xorshift_state(100) == 0x59b1e309a7c0b8b4u64);
    assert(xorshift_state(101) == 0x89a7d1317a3d94c5u64);
    assert(xorshift_state(102) == 0x8872b7e2d86c7eacu64);
    assert(xorshift_state(103) == 0x3d5ee31b93b48d51u64);
    assert(xorshift_state(104) == 0x34605a7af80c900bu64);
    assert(xorshift_state(105) == 0x89b262c24b0febebu64);
    assert(xorshift_state(106) == 0x3b881dc82ce66efcu64);
    assert(xorshift_state(107) == 0xcc89eb9372b99d21u64);
    assert(xorshift_state(108) == 0x1587e1f0c529865bu64);
}

#[verifier::spinoff_prover]
proof fn lemma_row_3()
    requires
        xorshift_state(108) == 0x1587e1f0c529865bu64,
    ensures
        row_matches(ROW_3, 3),
        off_seed(108, 144),
        xorshift_state(144) == 0xf875e0fb2845db06u64,
{
    assert(true) by {
        reveal(xorshift);
    }
    assert(xorshift(0x1587e1f0c529865bu64) == 0xfd2436b519272397u64
        && xorshift(0xfd2436b519272397u64) == 0x9a70cde40e8f6810u64
        && xorshift(0x9a70cde40e8f6810u64) == 0x2b90c4396dca72c0u64
        && xorshift(0x2b90c4396dca72c0u64) == 0xbfd781f98f9f5625u64
        && xorshift(0xbfd781f98f9f5625u64) == 0x8da38248f20341c9u64
        && xorshift(0x8da38248f20341c9u64) == 0x6e705f2ca11a150au64
        && xorshift(0x6e705f2ca11a150au64) == 0xa46d1861bb3c23a0u64
        && xorshift(0xa46d1861bb3c23a0u64) == 0xdddf8b3554f8b3e7u64
        && xorshift(0xdddf8b3554f8b3e7u64) == 0x8b327feba0815b40u64
        && xorshift(0x8b327feba0815b40u64) == 0xee9e6c116f1289f6u64
        && xorshift(0xee9e6c116f1289f6u64) == 0xd1bbc9d0fa9a1165u64
        && xorshift(0xd1bbc9d0fa9a1165u64) == 0x038daaa107c9dc07u64
        && xorshift(0x038daaa107c9dc07u64) == 0xc52d212fd0cfae7fu64
        && xorshift(0xc52d212fd0cfae7fu64) == 0xf4ca5814d48c4ee3u64
        && xorshift(0xf4ca5814d48c4ee3u64) == 0x18b7fcd54a968ebeu64
        && xorshift(0x18b7fcd54a968ebeu64) == 0xf8ba27c30c31cc23u64
        && xorshift(0xf8ba27c30c31cc23u64) == 0x38a9bd743128c77bu64
        && xorshift(0x38a9bd743128c77bu64) == 0x6556220fdbfe2835u64
        && xorshift(0x6556220fdbfe2835u64) == 0x4dd00b480c8f7925u64
        && xorshift(0x4dd00b480c8f7925u64) == 0xbdb8d8154d428e97u64
        && xorshift(0xbdb8d8154d428e97u64) == 0xad4bc80cfa3d4e4au64
        && xorshift(0xad4bc80cfa3d4e4au64) == 0x5229494209ffe656u64
        && xorshift(0x5229494209ffe656u64) == 0x6f2d17d396eb4c1au64
        && xorshift(0x6f2d17d396eb4c1au64) == 0x5bc50ee95a92dc02u64
        && xorshift(0x5bc50ee95a92dc02u64) == 0xd00cfbd10564b93au64
        && xorshift(0xd00cfbd10564b93au64) == 0x227ee40594f77ec8u64
        && xorshift(0x227ee40594f77ec8u64) == 0xab6f318609b22235u64
        && xorshift(0xab6f318609b22235u64) == 0xd367158ffb0d6b31u64
        && xorshift(0xd367158ffb0d6b31u64) == 0xbfc252b4b1899da7u64
        && xorshift(0xbfc252b4b1899da7u64) == 0x2e66ff7e8781075cu64
        && xorshift(0x2e66ff7e8781075cu64) == 0x8bc949991e805252u64
        && xorshift(0x8bc949991e805252u64) == 0x9e84935a8a0f8676u64
        && xorshift(0x9e84935a8a0f8676u64) == 0x37c885f6c5c0c4fau64
        && xorshift(0x37c885f6c5c0c4fau64) == 0x44d0303e37033bf3u64
        && xorshift(0x44d0303e37033bf3u64) == 0xf0358088ae55a144u64
        && xorshift(0xf0358088ae55a144u64) == 0xf875e0fb2845db06u64) by (bit_vector);
    assert(xorshift_state(109) == 0xfd2436b519272397u64);
    assert(xorshift_state(110) == 0x9a70cde40e8f6810u64);
    assert(xorshift_state(111) == 0x2b90c4396dca72c0u64);
    assert(xorshift_state(112) == 0xbfd781f98f9f5625u64);
    assert(xorshift_state(113) == 0x8da38248f20341c9u64);
    assert(xorshift_state(114) == 0x6e705f2ca11a150au64);
    assert(xorshift_state(115) == 0xa46d1861bb3c23a0u64);
    assert(xorshift_state(116) == 0xdddf8b3554f8b3e7u64);
    assert(xorshift_state(117) == 0x8b327feba0815b40u64);
    assert(xorshift_state(118) == 0xee9e6c116f1289f6u64);
    assert(xorshift_state(119) == 0xd1bbc9d0fa9a1165u64);
    assert(xorshift_state(120) == 0x038daaa107c9dc07u64);
    assert(xorshift_state(121) == 0xc52d212fd0cfae7fu64);
    assert(xorshift_state(122) == 0xf4ca5814d48c4ee3u64);
    assert(xorshift_state(123) == 0x18b7fcd54a968ebeu64);
    assert(xorshift_state(124) == 0xf8ba27c30c31cc23u64);
    assert(xorshift_state(125) == 0x38a9bd743128c77bu64);
    assert(xorshift_state(126) == 0x6556220fdbfe2835u64);
    assert(xorshift_state(127) == 0x4dd00b480c8f7925u64);
    assert(xorshift_state(128) == 0xbdb8d8154d428e97u64);
    assert(xorshift_state(129) == 0xad4bc80cfa3d4e4au64);
    assert(xorshift_state(130) == 0x5229494209ffe656u64);
    assert(xorshift_state(131) == 0x6f2d17d396eb4c1au64);
    assert(xorshift_state(132) == 0x5bc50ee95a92dc02u64);
    assert(xorshift_state(133) == 0xd00cfbd10564b93au64);
    assert(xorshift_state(134) == 0x227ee40594f77ec8u64);
    assert(xorshift_state(135) == 0xab6f318609b22235u64);
    assert(xorshift_state(136) == 0xd367158ffb0d6b31u64);
    assert(xorshift_state(137) == 0xbfc252b4b1899da7u64);
    assert(xorshift_state(138) == 0x2e66ff7e8781075cu64);
    assert(xorshift_state(139) == 0x8bc949991e805252u64);
    assert(xorshift_state(140) == 0x9e84935a8a0f8676u64);
    assert(xorshift_state(141) == 0x37c885f6c5c0c4fau64);
    assert(xorshift_state(142) == 0x44d0303e37033bf3u64);
    assert(xorshift_state(143) == 0xf0358088ae55a144u64);
    assert(xorshift_state(144) == 0xf875e0fb2845db06u64);
}

#[verifier::spinoff_prover]
proof fn lemma_row_4()
    requires
        xorshift_state(144) == 0xf875e0fb2845db06u64,
    ensures
        row_matches(ROW_4, 4),
        off_seed(144, 180),
        xorshift_state(180) == 0x028b9a7cf0478a1fu64,
{
    assert(true) by {
        reveal(xorshift);
    }
    assert(xorshift(0xf875e0fb2845db06u64) == 0xe512b8fed6635130u64
        && xorshift(0xe512b8fed6635130u64) == 0x4284ca8d6e19db92u64
        && xorshift(0x4284ca8d6e19db92u64) == 0x41635e02508b4ca5u64
        && xorshift(0x41635e02508b4ca5u64) == 0x8e806ce0b995d37cu64
        && xorshift(0x8e806ce0b995d37cu64) == 0x04510cdee849a7dau64
        && xorshift(0x04510cdee849a7dau64) == 0xad69a26377218215u64
        && xorshift(0xad69a26377218215u64) == 0x962b14c5814fe451u64
        && xorshift(0x962b14c5814fe451u64) == 0x721189d93a8c4fd9u64
        && xorshift(0x721189d93a8c4fd9u64) == 0xb407bff6a01d8106u64
        && xorshift(0xb407bff6a01d8106u64) == 0x713b6d188d153b84u64
        && xorshift(0x713b6d188d153b84u64) == 0x8427f021bfd770f3u64
        && xorshift(0x8427f021bfd770f3u64) == 0x7a7e4e81e2ce82d2u64
        && xorshift(0x7a7e4e81e2ce82d2u64) == 0xeeb22bde545feb57u64
        && xorshift(0xeeb22bde545feb57u64) == 0x4fb07659c0e56141u64
        && xorshift(0x4fb07659c0e56141u64) == 0x304a74f05192dbc3u64
        && xorshift(0x304a74f05192dbc3u64) == 0xd256cbc153976eb4u64
        && xorshift(0xd256cbc153976eb4u64) == 0x73d90e0a03ef6d69u64
        && xorshift(0x73d90e0a03ef6d69u64) == 0xaf6a7dd69278c9f3u64
        && xorshift(0xaf6a7dd69278c9f3u64) == 0xfc9c7e66f11024a0u64
        && xorshift(0xfc9c7e66f11024a0u64) == 0x71bef9da25bd2ce9u64
        && xorshift(0x71bef9da25bd2ce9u64) == 0xc3f60057c2c04cf0u64
        && xorshift(0xc3f60057c2c04cf0u64) == 0x0004a86e341af069u64
        && xorshift(0x0004a86e341af069u64) == 0x6c421db74f51ffc9u64
        && xorshift(0x6c421db74f51ffc9u64) == 0x14c08926d6a58e76u64
        && xorshift(0x14c08926d6a58e76u64) == 0x33449c1eb27198eau64
        && xorshift(0x33449c1eb27198eau64) == 0x280e841822d8015bu64
        && xorshift(0x280e841822d8015bu64) == 0xcffbd22eab848799u64
        && xorshift(0xcffbd22eab848799u64) == 0x4274755216ad48d6u64
        && xorshift(0x4274755216ad48d6u64) == 0xda96ea797f46e7c7u64
        && xorshift(0xda96ea797f46e7c7u64) == 0xebe377e877697bc8u64
        && xorshift(0xebe377e877697bc8u64) == 0x0ffae0b7e4de5b3fu64
        && xorshift(0x0ffae0b7e4de5b3fu64) == 0xdb632bd9e774c849u64
        && xorshift(0xdb632bd9e774c849u64) == 0xf156061b37b31399u64
        && xorshift(0xf156061b37b31399u64) == 0xa5af54fbe897b3feu64
        && xorshift(0xa5af54fbe897b3feu64) == 0xdcdbd0118ae7a319u64
        && xorshift(0xdcdbd0118ae7a319u64) == 0x028b9a7cf0478a1fu64) by (bit_vector);
    assert(xorshift_state(145) == 0xe512b8fed6635130u64);
    assert(xorshift_state(146) == 0x4284ca8d6e19db92u64);
    assert(xorshift_state(147) == 0x41635e02508b4ca5u64);
    assert(xorshift_state(148) == 0x8e806ce0b995d37cu64);
    assert(xorshift_state(149) == 0x04510cdee849a7dau64);
    assert(xorshift_state(150) == 0xad69a26377218215u64);
    assert(xorshift_state(151) == 0x962b14c5814fe451u64);
    assert(xorshift_state(152) == 0x721189d93a8c4fd9u64);
    assert(xorshift_state(153) == 0xb407bff6a01d8106u64);
    assert(xorshift_state(154) == 0x713b6d188d153b84u64);
    assert(xorshift_state(155) == 0x8427f021bfd770f3u64);
    assert(xorshift_state(156) == 0x7a7e4e81e2ce82d2u64);
    assert(xorshift_state(157) == 0xeeb22bde545feb57u64);
    assert(xorshift_state(158) == 0x4fb07659c0e56141u64);
    assert(xorshift_state(159) == 0x304a74f05192dbc3u64);
    assert(xorshift_state(160) == 0xd256cbc153976eb4u64);
    assert(xorshift_state(161) == 0x73d90e0a03ef6d69u64);
    assert(xorshift_state(162) == 0xaf6a7dd69278c9f3u64);
    assert(xorshift_state(163) == 0xfc9c7e66f11024a0u64);
    assert(xorshift_state(164) == 0x71bef9da25bd2ce9u64);
    assert(xorshift_state(165) == 0xc3f60057c2c04cf0u64);
    assert(xorshift_state(166) == 0x0004a86e341af069u64);
    assert(xorshift_state(167) == 0x6c421db74f51ffc9u64);
    assert(xorshift_state(168) == 0x14c08926d6a58e76u64);
    assert(xorshift_state(169) == 0x33449c1eb27198eau64);
    assert(xorshift_state(170) == 0x280e841822d8015bu64);
    assert(xorshift_state(171) == 0xcffbd22eab848799u64);
    assert(xorshift_state(172) == 0x4274755216ad48d6u64);
    assert(xorshift_state(173) == 0xda96ea797f46e7c7u64);
    assert(xorshift_state(174) == 0xebe377e877697bc8u64);
    assert(xorshift_state(175) == 0x0ffae0b7e4de5b3fu64);
    assert(xorshift_state(176) == 0xdb632bd9e774c849u64);
    assert(xorshift_state(177) == 0xf156061b37b31399u64);
    assert(xorshift_state(178) == 0xa5af54fbe897b3feu64);
    assert(xorshift_state(179) == 0xdcdbd0118ae7a319u64);
    assert(xorshift_state(180) == 0x028b9a7cf0478a1fu64);
}

#[verifier::spinoff_prover]
proof fn lemma_row_5()
    requires
        xorshift_state(180) == 0x028b9a7cf0478a1fu64,
    ensures
        row_matches(ROW_5, 5),
        off_seed(180, 216),
        xorshift_state(216) == 0xce54c1db70974b00u64,
{
    assert(true) by {
        reveal(xorshift);
    }
    assert(xorshift(0x028b9a7cf0478a1fu64) == 0x69de5e702c9062cbu64
        && xorshift(0x69de5e702c9062cbu64) == 0x55ffb244c51490ceu64
        && xorshift(0x55ffb244c51490ceu64) == 0x2b9773f50f7d4a6fu64
        && xorshift(0x2b9773f50f7d4a6fu64) == 0xc71f2747050acb3bu64
        && xorshift(0xc71f2747050acb3bu64) == 0x736309c3700f706du64
        && xorshift(0x736309c3700f706du64) == 0xb065e770b0a4d5cdu64
        && xorshift(0xb065e770b0a4d5cdu64) == 0xc19f22147c054f26u64
        && xorshift(0xc19f22147c054f26u64) == 0x0809ee5b643a4c38u64
        && xorshift(0x0809ee5b643a4c38u64) == 0x3a1a2c15f8a636a0u64
        && xorshift(0x3a1a2c15f8a636a0u64) == 0x3b29da3a9994d2cdu64
        && xorshift(0x3b29da3a9994d2cdu64) == 0xa85a738fc39ae828u64
        && xorshift(0xa85a738fc39ae828u64) == 0x5e3113aec852d7f8u64
        && xorshift(0x5e3113aec852d7f8u64) == 0xfadff420c3268c57u64
        && xorshift(0xfadff420c3268c57u64) == 0xb36a6e8ef397348fu64
        && xorshift(0xb36a6e8ef397348fu64) == 0x707d1dc45f60d926u64
        && xorshift(0x707d1dc45f60d926u64) == 0xe86a349d36e49114u64
        && xorshift(0xe86a349d36e49114u64) == 0x6d6e2e7a1de39d36u64
        && xorshift(0x6d6e2e7a1de39d36u64) == 0xf7cbea2e4d81d78cu64
        && xorshift(0xf7cbea2e4d81d78cu64) == 0xf429a8e425d8b723u64
        && xorshift(0xf429a8e425d8b723u64) == 0x4cb85cb2d040ae8du64
        && xorshift(0x4cb85cb2d040ae8du64) == 0xf2cf3a83e93a2c90u64
        && xorshift(0xf2cf3a83e93a2c90u64) == 0xe7e3b2c91c637cc9u64
        && xorshift(0xe7e3b2c91c637cc9u64) == 0x5856165ca9fda870u64
        && xorshift(0x5856165ca9fda870u64) == 0xeb630df1448a4f20u64
        && xorshift(0xeb630df1448a4f20u64) == 0xb59d05c3ea0893beu64
        && xorshift(0xb59d05c3ea0893beu64) == 0x71e8c96ca7bdad19u64
        && xorshift(0x71e8c96ca7bdad19u64) == 0xc6549f55443cb003u64
        && xorshift(0xc6549f55443cb003u64) == 0xc26fa48c24dea9a3u64
        && xorshift(0xc26fa48c24dea9a3u64) == 0x8e3c6045e6691c30u64
        && xorshift(0x8e3c6045e6691c30u64) == 0x68531df85074c208u64
        && xorshift(0x68531df85074c208u64) == 0x9449849276bda98cu64
        && xorshift(0x9449849276bda98cu64) == 0x5e30edc72bb531dfu64
        && xorshift(0x5e30edc72bb531dfu64) == 0x724ec58b766dcc7cu64
        && xorshift(0x724ec58b766dcc7cu64) == 0x038ad0eb53b588e4u64
        && xorshift(0x038ad0eb53b588e4u64) == 0x72f527306c865af5u64
        && xorshift(0x72f527306c865af5u64) == 0xce54c1db70974b00u64) by (bit_vector);
    assert(xorshift_state(181) == 0x69de5e702c9062cbu64);
    assert(xorshift_state(182) == 0x55ffb244c51490ceu64);
    assert(xorshift_state(183) == 0x2b9773f50f7d4a6fu64);
    assert(xorshift_state(184) == 0xc71f2747050acb3bu64);
    assert(xorshift_state(185) == 0x736309c3700f706du64);
    assert(xorshift_state(186) == 0xb065e770b0a4d5cdu64);
    assert(xorshift_state(187) == 0xc19f22147c054f26u64);
    assert(xorshift_state(188) == 0x0809ee5b643a4c38u64);
    assert(xorshift_state(189) == 0x3a1a2c15f8a636a0u64);
    assert(xorshift_state(190) == 0x3b29da3a9994d2cdu64);
    assert(xorshift_state(191) == 0xa85a738fc39ae828u64);
    assert(xorshift_state(192) == 0x5e3113aec852d7f8u64);
    assert(xorshift_state(193) == 0xfadff420c3268c57u64);
    assert(xorshift_state(194) == 0xb36a6e8ef397348fu64);
    assert(xorshift_state(195) == 0x707d1dc45f60d926u64);
    assert(xorshift_state(196) == 0xe86a349d36e49114u64);
    assert(xorshift_state(197) == 0x6d6e2e7a1de39d36u64);
    assert(xorshift_state(198) == 0xf7cbea2e4d81d78cu64);
    assert(xorshift_state(199) == 0xf429a8e425d8b723u64);
    assert(xorshift_state(200) == 0x4cb85cb2d040ae8du64);
    assert(xorshift_state(201) == 0xf2cf3a83e93a2c90u64);
    assert(xorshift_state(202) == 0xe7e3b2c91c637cc9u64);
    assert(xorshift_state(203) == 0x5856165ca9fda870u64);
    assert(xorshift_state(204) == 0xeb630df1448a4f20u64);
    assert(xorshift_state(205) == 0xb59d05c3ea0893beu64);
    assert(xorshift_state(206) == 0x71e8c96ca7bdad19u64);
    assert(xorshift_state(207) == 0xc6549f55443cb003u64);
    assert(xorshift_state(208) == 0xc26fa48c24dea9a3u64);
    assert(xorshift_state(209) == 0x8e3c6045e6691c30u64);
    assert(xorshift_state(210) == 0x68531df85074c208u64);
    assert(xorshift_state(211) == 0x9449849276bda98cu64);
    assert(xorshift_state(212) == 0x5e30edc72bb531dfu64);
    assert(xorshift_state(213) == 0x724ec58b766dcc7cu64);
    assert(xorshift_state(214) == 0x038ad0eb53b588e4u64);
    assert(xorshift_state(215) == 0x72f527306c865af5u64);
    assert(xorshift_state(216) == 0xce54c1db70974b00u64);
}

#[verifier::spinoff_prover]
proof fn lemma_row_6()
    requires
        xorshift_state(216) == 0xce54c1db70974b00u64,
    ensures
        row_matches(ROW_6, 6),
        off_seed(216, 252),
        xorshift_state(252) == 0x05bde8ae549fc607u64,
{
    assert(true) by {
        reveal(xorshift);
    }
    assert(xorshift(0xce54c1db70974b00u64) == 0xb7ef651f41e8a596u64
        && xorshift(0xb7ef651f41e8a596u64) == 0x738a37d9b34ad15du64
        && xorshift(0x738a37d9b34ad15du64) == 0xf27cf2d4efcdb3bfu64
        && xorshift(0xf27cf2d4efcdb3bfu64) == 0x2b1825e14d392718u64
        && xorshift(0x2b1825e14d392718u64) == 0xa7468e4dc3a59356u64
        && xorshift(0xa7468e4dc3a59356u64) == 0x26c82e0c98cccdf0u64
        && xorshift(0x26c82e0c98cccdf0u64) == 0x7f91f88f7ba6286bu64
        && xorshift(0x7f91f88f7ba6286bu64) == 0x6fa9847874201efbu64
        && xorshift(0x6fa9847874201efbu64) == 0xd04bd9c88f1c8006u64
        && xorshift(0xd04bd9c88f1c8006u64) == 0xf152bfffb82e7886u64
        && xorshift(0xf152bfffb82e7886u64) == 0x833715ca083ec5f7u64
        && xorshift(0x833715ca083ec5f7u64) == 0xf185de26005925bcu64
        && xorshift(0xf185de26005925bcu64) == 0x72f7615f8f4978f7u64
        && xorshift(0x72f7615f8f4978f7u64) == 0xccceb3b9a29b37c6u64
        && xorshift(0xccceb3b9a29b37c6u64) == 0xf346d73371b93029u64
        && xorshift(0xf346d73371b93029u64) == 0xd91f46508f016809u64
        && xorshift(0xd91f46508f016809u64) == 0xcb897b9752764899u64
        && xorshift(0xcb897b9752764899u64) == 0x28c6365d6cc3a248u64
        && xorshift(0x28c6365d6cc3a248u64) == 0xee34a585fca3b70cu64
        && xorshift(0xee34a585fca3b70cu64) == 0x5e3a4088cf92b362u64
        && xorshift(0x5e3a4088cf92b362u64) == 0x0997d65271c50e84u64
        && xorshift(0x0997d65271c50e84u64) == 0xb40f28314e87a599u64
        && xorshift(0xb40f28314e87a599u64) == 0x766fe163a064ec92u64
        && xorshift(0x766fe163a064ec92u64) == 0xafdcd55f601b41cbu64
        && xorshift(0xafdcd55f601b41cbu64) == 0x9b40b74a7b226588u64
        && xorshift(0x9b40b74a7b226588u64) == 0xdb0e7c26ed7a4343u64
        && xorshift(0xdb0e7c26ed7a4343u64) == 0x7d36d87ab8520705u64
        && xorshift(0x7d36d87ab8520705u64) == 0x5fa9cee99dd5c24bu64
        && xorshift(0x5fa9cee99dd5c24bu64) == 0x4feb1306b5c99b0fu64
        && xorshift(0x4feb1306b5c99b0fu64) == 0x89b9217eae572bf9u64
        && xorshift(0x89b9217eae572bf9u64) == 0x1e779e2194625beeu64
        && xorshift(0x1e779e2194625beeu64) == 0x7b81c2b7cd13a4d9u64
        && xorshift(0x7b81c2b7cd13a4d9u64) == 0x6997b094b95b95d0u64
        && xorshift(0x6997b094b95b95d0u64) == 0xc55b451c198056fbu64
        && xorshift(0xc55b451c198056fbu64) == 0xc3e3a1535a558896u64
        && xorshift(0xc3e3a1535a558896u64) == 0x05bde8ae549fc607u64) by (bit_vector);
    assert(xorshift_state(217) == 0xb7ef651f41e8a596u64);
    assert(xorshift_state(218) == 0x738a37d9b34ad15du64);
    assert(xorshift_state(219) == 0xf27cf2d4efcdb3bfu64);
    assert(xorshift_state(220) == 0x2b1825e14d392718u64);
    assert(xorshift_state(221) == 0xa7468e4dc3a59356u64);
    assert(xorshift_state(222) == 0x26c82e0c98cccdf0u64);
    assert(xorshift_state(223) == 0x7f91f88f7ba6286bu64);
    assert(xorshift_state(224) == 0x6fa9847874201efbu64);
    assert(xorshift_state(225) == 0xd04bd9c88f1c8006u64);
    assert(xorshift_state(226) == 0xf152bfffb82e7886u64);
    assert(xorshift_state(227) == 0x833715ca083ec5f7u64);
    assert(xorshift_state(228) == 0xf185de26005925bcu64);
    assert(xorshift_state(229) == 0x72f7615f8f4978f7u64);
    assert(xorshift_state(230) == 0xccceb3b9a29b37c6u64);
    assert(xorshift_state(231) == 0xf346d73371b93029u64);
    assert(xorshift_state(232) == 0xd91f46508f016809u64);
    assert(xorshift_state(233) == 0xcb897b9752764899u64);
    assert(xorshift_state(234) == 0x28c6365d6cc3a248u64);
    assert(xorshift_state(235) == 0xee34a585fca3b70cu64);
    assert(xorshift_state(236) == 0x5e3a4088cf92b362u64);
    assert(xorshift_state(237) == 0x0997d65271c50e84u64);
    assert(xorshift_state(238) == 0xb40f28314e87a599u64);
    assert(xorshift_state(239) == 0x766fe163a064ec92u64);
    assert(xorshift_state(240) == 0xafdcd55f601b41cbu64);
    assert(xorshift_state(241) == 0x9b40b74a7b226588u64);
    assert(xorshift_state(242) == 0xdb0e7c26ed7a4343u64);
    assert(xorshift_state(243) == 0x7d36d87ab8520705u64);
    assert(xorshift_state(244) == 0x5fa9cee99dd5c24bu64);
    assert(xorshift_state(245) == 0x4feb1306b5c99b0fu64);
    assert(xorshift_state(246) == 0x89b9217eae572bf9u64);
    assert(xorshift_state(247) == 0x1e779e2194625beeu64);
    assert(xorshift_state(248) == 0x7b81c2b7cd13a4d9u64);
    assert(xorshift_state(249) == 0x6997b094b95b95d0u64);
    assert(xorshift_state(250) == 0xc55b451c198056fbu64);
    assert(xorshift_state(251) == 0xc3e3a1535a558896u64);
    assert(xorshift_state(252) == 0x05bde8ae549fc607u64);
}

#[verifier::spinoff_prover]
proof fn lemma_row_7()
    requires
        xorshift_state(252) == 0x05bde8ae549fc607u64,
    ensures
        row_matches(ROW_7, 7),
        off_seed(252, 288),
        xorshift_state(288) == 0xc88c8b6302740d81u64,
{
    assert(true) by {
        reveal(xorshift);
    }
    assert(xorshift(0x05bde8ae549fc607u64) == 0x5d2adc76e791984bu64
        && xorshift(0x5d2adc76e791984bu64) == 0x97a2f2e64e47c9bbu64
        && xorshift(0x97a2f2e64e47c9bbu64) == 0x46dc13647bce48e8u64
        && xorshift(0x46dc13647bce48e8u64) == 0x3f72ee485544ee79u64
        && xorshift(0x3f72ee485544ee79u64) == 0x442c811cbad0d9e5u64
        && xorshift(0x442c811cbad0d9e5u64) == 0xc57351356e83a116u64
        && xorshift(0xc57351356e83a116u64) == 0x0032f634973c23d4u64
        && xorshift(0x0032f634973c23d4u64) == 0x467ce6dae8462e93u64
        && xorshift(0x467ce6dae8462e93u64) == 0x3259e73b45d3660eu64
        && xorshift(0x3259e73b45d3660eu64) == 0xeb9fa41f2dc48342u64
        && xorshift(0xeb9fa41f2dc48342u64) == 0xed6b9c8bc75f9ac4u64
        && xorshift(0xed6b9c8bc75f9ac4u64) == 0xbc96f976dd8d14f1u64
        && xorshift(0xbc96f976dd8d14f1u64) == 0xc67ab158d4dd1298u64
        && xorshift(0xc67ab158d4dd1298u64) == 0x8058e852ed190ebdu64
        && xorshift(0x8058e852ed190ebdu64) == 0xbd5c4e34489733e0u64
        && xorshift(0xbd5c4e34489733e0u64) == 0xd1a235c528b8e587u64
        && xorshift(0xd1a235c528b8e587u64) == 0xddd38533bb78158cu64
        && xorshift(0xddd38533bb78158cu64) == 0x9f5f18cc0df406a7u64
        && xorshift(0x9f5f18cc0df406a7u64) == 0x543ec43526eea76au64
        && xorshift(0x543ec43526eea76au64) == 0xadf357e6e2afe0a4u64
        && xorshift(0xadf357e6e2afe0a4u64) == 0xefc965a8544c1665u64
        && xorshift(0xefc965a8544c1665u64) == 0xed05bda4fb3fb709u64
        && xorshift(0xed05bda4fb3fb709u64) == 0xdb09570cdf8b2a27u64
        && xorshift(0xdb09570cdf8b2a27u64) == 0xcac39e10eadc55b3u64
        && xorshift(0xcac39e10eadc55b3u64) == 0xb8e86d18351ae1d8u64
        && xorshift(0xb8e86d18351ae1d8u64) == 0x4ef9c28b5bc5a21bu64
        && xorshift(0x4ef9c28b5bc5a21bu64) == 0x8705e8139767cf9fu64
        && xorshift(0x8705e8139767cf9fu64) == 0x11e6b5589fc907c0u64
        && xorshift(0x11e6b5589fc907c0u64) == 0xbd1ac57237d165cfu64
        && xorshift(0xbd1ac57237d165cfu64) == 0x3161fc33a2d654c4u64
        && xorshift(0x3161fc33a2d654c4u64) == 0x800932452844496du64
        && xorshift(0x800932452844496du64) == 0x8fcb60354f553abfu64
        && xorshift(0x8fcb60354f553abfu64) == 0x4692fde9e9c6df0au64
        && xorshift(0x4692fde9e9c6df0au64) == 0x27bcbfd7302bd034u64
        && xorshift(0x27bcbfd7302bd034u64) == 0x1be50813fb910a94u64
        && xorshift(0x1be50813fb910a94u64) == 0xc88c8b6302740d81u64) by (bit_vector);
    assert(xorshift_state(253) == 0x5d2adc76e791984bu64);
    assert(xorshift_state(254) == 0x97a2f2e64e47c9bbu64);
    assert(xorshift_state(255) == 0x46dc13647bce48e8u64);
    assert(xorshift_state(256) == 0x3f72ee485544ee79u64);
    assert(xorshift_state(257) == 0x442c811cbad0d9e5u64);
    assert(xorshift_state(258) == 0xc57351356e83a116u64);
    assert(xorshift_state(259) == 0x0032f634973c23d4u64);
    assert(xorshift_state(260) == 0x467ce6dae8462e93u64);
    assert(xorshift_state(261) == 0x3259e73b45d3660eu64);
    assert(xorshift_state(262) == 0xeb9fa41f2dc48342u64);
    assert(xorshift_state(263) == 0xed6b9c8bc75f9ac4u64);
    assert(xorshift_state(264) == 0xbc96f976dd8d14f1u64);
    assert(xorshift_state(265) == 0xc67ab158d4dd1298u64);
    assert(xorshift_state(266) == 0x8058e852ed190ebdu64);
    assert(xorshift_state(267) == 0xbd5c4e34489733e0u64);
    assert(xorshift_state(268) == 0xd1a235c528b8e587u64);
    assert(xorshift_state(269) == 0xddd38533bb78158cu64);
    assert(xorshift_state(270) == 0x9f5f18cc0df406a7u64);
    assert(xorshift_state(271) == 0x543ec43526eea76au64);
    assert(xorshift_state(272) == 0xadf357e6e2afe0a4u64);
    assert(xorshift_state(273) == 0xefc965a8544c1665u64);
    assert(xorshift_state(274) == 0xed05bda4fb3fb709u64);
    assert(xorshift_state(275) == 0xdb09570cdf8b2a27u64);
    assert(xorshift_state(276) == 0xcac39e10eadc55b3u64);
    assert(xorshift_state(277) == 0xb8e86d18351ae1d8u64);
    assert(xorshift_state(278) == 0x4ef9c28b5bc5a21bu64);
    assert(xorshift_state(279) == 0x8705e8139767cf9fu64);
    assert(xorshift_state(280) == 0x11e6b5589fc907c0u64);
    assert(xorshift_state(281) == 0xbd1ac57237d165cfu64);
    assert(xorshift_state(282) == 0x3161fc33a2d654c4u64);
    assert(xorshift_state(283) == 0x800932452844496du64);
    assert(xorshift_state(284) == 0x8fcb60354f553abfu64);
    assert(xorshift_state(285) == 0x4692fde9e9c6df0au64);
    assert(xorshift_state(286) == 0x27bcbfd7302bd034u64);
    assert(xorshift_state(287) == 0x1be50813fb910a94u64);
    assert(xorshift_state(288) == 0xc88c8b6302740d81u64);
}

#[verifier::spinoff_prover]
proof fn lemma_row_8()
    requires
        xorshift_state(288) == 0xc88c8b6302740d81u64,
    ensures
        row_matches(ROW_8, 8),
        off_seed(288, 324),
        xorshift_state(324) == 0x0ddb4bab47d61b62u64,
{
    assert(true) by {
        reveal(xorshift);
    }
    assert(xorshift(0xc88c8b6302740d81u64) == 0x0ca49b7c9377a5dau64
        && xorshift(0x0ca49b7c9377a5dau64) == 0xa0f41906bb217c11u64
        && xorshift(0xa0f41906bb217c11u64) == 0xec6fc4ea64d81aa9u64
        && xorshift(0xec6fc4ea64d81aa9u64) == 0xce1867e5c4fa20dcu64
        && xorshift(0xce1867e5c4fa20dcu64) == 0xeee9fd04b2da639du64
        && xorshift(0xeee9fd04b2da639du64) == 0x23f97b206160901au64
        && xorshift(0x23f97b206160901au64) == 0x97409ae844f117bau64
        && xorshift(0x97409ae844f117bau64) == 0xd7b0bcc63ce05b15u64
        && xorshift(0xd7b0bcc63ce05b15u64) == 0x96f12c777e2bfee3u64
        && xorshift(0x96f12c777e2bfee3u64) == 0xca73f7dd864871deu64
        && xorshift(0xca73f7dd864871deu64) == 0x1ad4155c0c1956bdu64
        && xorshift(0x1ad4155c0c1956bdu64) == 0x4ea25af04e236b50u64
        && xorshift(0x4ea25af04e236b50u64) == 0x52d33d8db803f986u64
        && xorshift(0x52d33d8db803f986u64) == 0xaa39f6e263575ff5u64
        && xorshift(0xaa39f6e263575ff5u64) == 0x7637428cc1acac0au64
        && xorshift(0x7637428cc1acac0au64) == 0xb1425a074921b7d2u64
        && xorshift(0xb1425a074921b7d2u64) == 0x977cc40db95e403du64
        && xorshift(0x977cc40db95e403du64) == 0x1c62f2b69a4153fdu64
        && xorshift(0x1c62f2b69a4153fdu64) == 0xd1cad300516a8e1au64
        && xorshift(0xd1cad300516a8e1au64) == 0x938339ce61a49d86u64
        && xorshift(0x938339ce61a49d86u64) == 0xf5718ff1ed8a753du64
        && xorshift(0xf5718ff1ed8a753du64) == 0x9f4ee9f33f458e97u64
        && xorshift(0x9f4ee9f33f458e97u64) == 0x9cfb1c13391e404au64
        && xorshift(0x9cfb1c13391e404au64) == 0xed0aa82ccc612e4au64
        && xorshift(0xed0aa82ccc612e4au64) == 0xe6f87f35d5573e96u64
        && xorshift(0xe6f87f35d5573e96u64) == 0x18e4e1d5e636f56bu64
        && xorshift(0x18e4e1d5e636f56bu64) == 0x4685dc7c5a68a241u64
        && xorshift(0x4685dc7c5a68a241u64) == 0x7bce1ae6aa36c345u64
        && xorshift(0x7bce1ae6aa36c345u64) == 0x6d9d8f4a8dbcdf83u64
        && xorshift(0x6d9d8f4a8dbcdf83u64) == 0xb34def80a19826fcu64
        && xorshift(0xb34def80a19826fcu64) == 0x0e29045e916f29b1u64
        && xorshift(0x0e29045e916f29b1u64) == 0x0940b6bce5f5bba2u64
        && xorshift(0x0940b6bce5f5bba2u64) == 0x1704a81fa68ef855u64
        && xorshift(0x1704a81fa68ef855u64) == 0x27ec989944bd50e5u64
        && xorshift(0x27ec989944bd50e5u64) == 0x2b4ba9979574b304u64
        && xorshift(0x2b4ba9979574b304u64) == 0x0ddb4bab47d61b62u64) by (bit_vector);
    assert(xorshift_state(289) == 0x0ca49b7c9377a5dau64);
    assert(xorshift_state(290) == 0xa0f41906bb217c11u64);
    assert(xorshift_state(291) == 0xec6fc4ea64d81aa9u64);
    assert(xorshift_state(292) == 0xce1867e5c4fa20dcu64);
    assert(xorshift_state(293) == 0xeee9fd04b2da639du64);
    assert(xorshift_state(294) == 0x23f97b206160901au64);
    assert(xorshift_state(295) == 0x97409ae844f117bau64);
    assert(xorshift_state(296) == 0xd7b0bcc63ce05b15u64);
    assert(xorshift_state(297) == 0x96f12c777e2bfee3u64);
    assert(xorshift_state(298) == 0xca73f7dd864871deu64);
    assert(xorshift_state(299) == 0x1ad4155c0c1956bdu64);
    assert(xorshift_state(300) == 0x4ea25af04e236b50u64);
    assert(xorshift_state(301) == 0x52d33d8db803f986u64);
    assert(xorshift_state(302) == 0xaa39f6e263575ff5u64);
    assert(xorshift_state(303) == 0x7637428cc1acac0au64);
    assert(xorshift_state(304) == 0xb1425a074921b7d2u64);
    assert(xorshift_state(305) == 0x977cc40db95e403du64);
    assert(xorshift_state(306) == 0x1c62f2b69a4153fdu64);
    assert(xorshift_state(307) == 0xd1cad300516a8e1au64);
    assert(xorshift_state(308) == 0x938339ce61a49d86u64);
    assert(xorshift_state(309) == 0xf5718ff1ed8a753du64);
    assert(xorshift_state(310) == 0x9f4ee9f33f458e97u64);
    assert(xorshift_state(311) == 0x9cfb1c13391e404au64);
    assert(xorshift_state(312) == 0xed0aa82ccc612e4au64);
    assert(xorshift_state(313) == 0xe6f87f35d5573e96u64);
    assert(xorshift_state(314) == 0x18e4e1d5e636f56bu64);
    assert(xorshift_state(315) == 0x4685dc7c5a68a241u64);
    assert(xorshift_state(316) == 0x7bce1ae6aa36c345u64);
    assert(xorshift_state(317) == 0x6d9d8f4a8dbcdf83u64);
    assert(xorshift_state(318) == 0xb34def80a19826fcu64);
    assert(xorshift_state(319) == 0x0e29045e916f29b1u64);
    assert(xorshift_state(320) == 0x0940b6bce5f5bba2u64);
    assert(xorshift_state(321) == 0x1704a81fa68ef855u64);
    assert(xorshift_state(322) == 0x27ec989944bd50e5u64);
    assert(xorshift_state(323) == 0x2b4ba9979574b304u64);
    assert(xorshift_state(324) == 0x0ddb4bab47d61b62u64);
}

#[verifier::spinoff_prover]
proof fn lemma_row_9()
    requires
        xorshift_state(324) == 0x0ddb4bab47d61b62u64,
    ensures
        row_matches(ROW_9, 9),
        off_seed(324, 360),
        xorshift_state(360) == 0x09786ba4f6bf2bb9u64,
{
    assert(true) by {
        reveal(xorshift);
    }
    assert(xorshift(0x0ddb4bab47d61b62u64) == 0x9a493071781b2fd4u64
        && xorshift(0x9a493071781b2fd4u64) == 0x9fa662f820cc6c8bu64
        && xorshift(0x9fa662f820cc6c8bu64) == 0x7b0648230323b692u64
        && xorshift(0x7b0648230323b692u64) == 0xeb49da23d1e4157fu64
        && xorshift(0xeb49da23d1e4157fu64) == 0xa7136085a8c76295u64
        && xorshift(0xa7136085a8c76295u64) == 0x6ef92e0fac3ce910u64
        && xorshift(0x6ef92e0fac3ce910u64) == 0x1fd0e8c688f8d4c2u64
        && xorshift(0x1fd0e8c688f8d4c2u64) == 0x5199eb228a9255ebu64
        && xorshift(0x5199eb228a9255ebu64) == 0xee2c025af6af6b80u64
        && xorshift(0xee2c025af6af6b80u64) == 0x4ad799e7af46d557u64
        && xorshift(0x4ad799e7af46d557u64) == 0xcd366cd8b17ded3du64
        && xorshift(0xcd366cd8b17ded3du64) == 0x40a9e585118df9a7u64
        && xorshift(0x40a9e585118df9a7u64) == 0x9696faf310cc6b94u64
        && xorshift(0x9696faf310cc6b94u64) == 0x5aed98d064039643u64
        && xorshift(0x5aed98d064039643u64) == 0x1ed516b475b861afu64
        && xorshift(0x1ed516b475b861afu64) == 0x831d61ce4a269aacu64
        && xorshift(0x831d61ce4a269aacu64) == 0xeccdf9587573fc99u64
        && xorshift(0xeccdf9587573fc99u64) == 0x2772f7f3dcb51d20u64
        && xorshift(0x2772f7f3dcb51d20u64) == 0x5384fea3cbdb3f1au64
        && xorshift(0x5384fea3cbdb3f1au64) == 0x80661c1702a80fe4u64
        && xorshift(0x80661c1702a80fe4u64) == 0x28163b1ecaa426fbu64
        && xorshift(0x28163b1ecaa426fbu64) == 0xfdb6bc41ba0bb076u64
        && xorshift(0xfdb6bc41ba0bb076u64) == 0xc6476d2c38b17a96u64
        && xorshift(0xc6476d2c38b17a96u64) == 0x7469e876980a7de3u64
        && xorshift(0x7469e876980a7de3u64) == 0xa3f78533dba971d8u64
        && xorshift(0xa3f78533dba971d8u64) == 0xe883ad48d20f553bu64
        && xorshift(0xe883ad48d20f553bu64) == 0x58deb7d5e07b6551u64
        && xorshift(0x58deb7d5e07b6551u64) == 0x08a2305cf67ee7dbu64
        && xorshift(0x08a2305cf67ee7dbu64) == 0xb5a8e46f15788cd4u64
        && xorshift(0xb5a8e46f15788cd4u64) == 0x31ec451a1571c8cdu64
        && xorshift(0x31ec451a1571c8cdu64) == 0x8b4b11da3408b81cu64
        && xorshift(0x8b4b11da3408b81cu64) == 0x87499d6fc9952e6cu64
        && xorshift(0x87499d6fc9952e6cu64) == 0xeca60195e8e01f30u64
        && xorshift(0xeca60195e8e01f30u64) == 0x072c6450decc130eu64
        && xorshift(0x072c6450decc130eu64) == 0xec5daf5f5f4488a8u64
        && xorshift(0xec5daf5f5f4488a8u64) == 0x09786ba4f6bf2bb9u64) by (bit_vector);
    assert(xorshift_state(325) == 0x9a493071781b2fd4u64);
    assert(xorshift_state(326) == 0x9fa662f820cc6c8bu64);
    assert(xorshift_state(327) == 0x7b0648230323b692u64);
    assert(xorshift_state(328) == 0xeb49da23d1e4157fu64);
    assert(xorshift_state(329) == 0xa7136085a8c76295u64);
    assert(xorshift_state(330) == 0x6ef92e0fac3ce910u64);
    assert(xorshift_state(331) == 0x1fd0e8c688f8d4c2u64);
    assert(xorshift_state(332) == 0x5199eb228a9255ebu64);
    assert(xorshift_state(333) == 0xee2c025af6af6b80u64);
    assert(xorshift_state(334) == 0x4ad799e7af46d557u64);
    assert(xorshift_state(335) == 0xcd366cd8b17ded3du64);
    assert(xorshift_state(336) == 0x40a9e585118df9a7u64);
    assert(xorshift_state(337) == 0x9696faf310cc6b94u64);
    assert(xorshift_state(338) == 0x5aed98d064039643u64);
    assert(xorshift_state(339) == 0x1ed516b475b861afu64);
    assert(xorshift_state(340) == 0x831d61ce4a269aacu64);
    assert(xorshift_state(341) == 0xeccdf9587573fc99u64);
    assert(xorshift_state(342) == 0x2772f7f3dcb51d20u64);
    assert(xorshift_state(343) == 0x5384fea3cbdb3f1au64);
    assert(xorshift_state(344) == 0x80661c1702a80fe4u64);
    assert(xorshift_state(345) == 0x28163b1ecaa426fbu64);
    assert(xorshift_state(346) == 0xfdb6bc41ba0bb076u64);
    assert(xorshift_state(347) == 0xc6476d2c38b17a96u64);
    assert(xorshift_state(348) == 0x7469e876980a7de3u64);
    assert(xorshift_state(349) == 0xa3f78533dba971d8u64);
    assert(xorshift_state(350) == 0xe883ad48d20f553bu64);
    assert(xorshift_state(351) == 0x58deb7d5e07b6551u64);
    assert(xorshift_state(352) == 0x08a2305cf67ee7dbu64);
    assert(xorshift_state(353) == 0xb5a8e46f15788cd4u64);
    assert(xorshift_state(354) == 0x31ec451a1571c8cdu64);
    assert(xorshift_state(355) == 0x8b4b11da3408b81cu64);
    assert(xorshift_state(356) == 0x87499d6fc9952e6cu64);
    assert(xorshift_state(357) == 0xeca60195e8e01f30u64);
    assert(xorshift_state(358) == 0x072c6450decc130eu64);
    assert(xorshift_state(359) == 0xec5daf5f5f4488a8u64);
    assert(xorshift_state(360) == 0x09786ba4f6bf2bb9u64);
}

#[verifier::spinoff_prover]
proof fn lemma_row_10()
    requires
        xorshift_state(360) == 0x09786ba4f6bf2bb9u64,
    ensures
        row_matches(ROW_10, 10),
        off_seed(360, 396),
        xorshift_state(396) == 0xf5f8123b304c0b37u64,
{
    assert(true) by {
        reveal(xorshift);
    }
    assert(xorshift(0x09786ba4f6bf2bb9u64) == 0xdd370746c2b39baeu64
        && xorshift(0xdd370746c2b39baeu64) == 0xfcf941e53e97d719u64
        && xorshift(0xfcf941e53e97d719u64) == 0x0e9b3a0396121ef7u64
        && xorshift(0x0e9b3a0396121ef7u64) == 0x95a8529e9873670au64
        && xorshift(0x95a8529e9873670au64) == 0x73e3dc65d3f30344u64
        && xorshift(0x73e3dc65d3f30344u64) == 0x79d0b12eec78b442u64
        && xorshift(0x79d0b12eec78b442u64) == 0x63dbf472925115aau64
        && xorshift(0x63dbf472925115aau64) == 0x07868e7ffb879d01u64
        && xorshift(0x07868e7ffb879d01u64) == 0x103fcf82f2c1f27bu64
        && xorshift(0x103fcf82f2c1f27bu64) == 0xf5eefcd667a98f5fu64
        && xorshift(0xf5eefcd667a98f5fu64) == 0x9aa6f99ec7eceb81u64
        && xorshift(0x9aa6f99ec7eceb81u64) == 0x535d33727805f216u64
        && xorshift(0x535d33727805f216u64) == 0xc1cd5d1d5b2fbc72u64
        && xorshift(0xc1cd5d1d5b2fbc72u64) == 0x3d92906522ecbf8au64
        && xorshift(0x3d92906522ecbf8au64) == 0x7fe080bf4c9dc475u64
        && xorshift(0x7fe080bf4c9dc475u64) == 0x60d5dc08288142bdu64
        && xorshift(0x60d5dc08288142bdu64) == 0x3bb61104ae274f78u64
        && xorshift(0x3bb61104ae274f78u64) == 0xabf62746788bdfe6u64
        && xorshift(0xabf62746788bdfe6u64) == 0xc4cf8f644ec3f1d9u64
        && xorshift(0xc4cf8f644ec3f1d9u64) == 0xb42bd183086d207au64
        && xorshift(0xb42bd183086d207au64) == 0xc058e59af84ea4bau64
        && xorshift(0xc058e59af84ea4bau64) == 0x069e78e6a4665773u64
        && xorshift(0x069e78e6a4665773u64) == 0x9a74dd98f46f271du64
        && xorshift(0x9a74dd98f46f271du64) == 0x98e239c8068b9e13u64
        && xorshift(0x98e239c8068b9e13u64) == 0xc0b2002d9c7d6defu64
        && xorshift(0xc0b2002d9c7d6defu64) == 0x383c37836c4b0cf4u64
        && xorshift(0x383c37836c4b0cf4u64) == 0x3acdf122561427edu64
        && xorshift(0x3acdf122561427edu64) == 0x54ce4e0fba8854e2u64
        && xorshift(0x54ce4e0fba8854e2u64) == 0xd06dbcc474e23ccbu64
        && xorshift(0xd06dbcc474e23ccbu64) == 0xd743de07d7f9aa72u64
        && xorshift(0xd743de07d7f9aa72u64) == 0xe8b80454183e85a6u64
        && xorshift(0xe8b80454183e85a6u64) == 0x2d583c6bcd41512du64
        && xorshift(0x2d583c6bcd41512du64) == 0xf4102e1c113438cfu64
        && xorshift(0xf4102e1c113438cfu64) == 0xe6f5cd61e5fd837eu64
        && xorshift(0xe6f5cd61e5fd837eu64) == 0xdb9c904f26c967f8u64
        && xorshift(0xdb9c904f26c967f8u64) == 0xf5f8123b304c0b37u64) by (bit_vector);
    assert(xorshift_state(361) == 0xdd370746c2b39baeu64);
    assert(xorshift_state(362) == 0xfcf941e53e97d719u64);
    assert(xorshift_state(363) == 0x0e9b3a0396121ef7u64);
    assert(xorshift_state(364) == 0x95a8529e9873670au64);
    assert(xorshift_state(365) == 0x73e3dc65d3f30344u64);
    assert(xorshift_state(366) == 0x79d0b12eec78b442u64);
    assert(xorshift_state(367) == 0x63dbf472925115aau64);
    assert(xorshift_state(368) == 0x07868e7ffb879d01u64);
    assert(xorshift_state(369) == 0x103fcf82f2c1f27bu64);
    assert(xorshift_state(370) == 0xf5eefcd667a98f5fu64);
    assert(xorshift_state(371) == 0x9aa6f99ec7eceb81u64);
    assert(xorshift_state(372) == 0x535d33727805f216u64);
    assert(xorshift_state(373) == 0xc1cd5d1d5b2fbc72u64);
    assert(xorshift_state(374) == 0x3d92906522ecbf8au64);
    assert(xorshift_state(375) == 0x7fe080bf4c9dc475u64);
    assert(xorshift_state(376) == 0x60d5dc08288142bdu64);
    assert(xorshift_state(377) == 0x3bb61104ae274f78u64);
    assert(xorshift_state(378) == 0xabf62746788bdfe6u64);
    assert(xorshift_state(379) == 0xc4cf8f644ec3f1d9u64);
    assert(xorshift_state(380) == 0xb42bd183086d207au64);
    assert(xorshift_state(381) == 0xc058e59af84ea4bau64);
    assert(xorshift_state(382) == 0x069e78e6a4665773u64);
    assert(xorshift_state(383) == 0x9a74dd98f46f271du64);
    assert(xorshift_state(384) == 0x98e239c8068b9e13u64);
    assert(xorshift_state(385) == 0xc0b2002d9c7d6defu64);
    assert(xorshift_state(386) == 0x383c37836c4b0cf4u64);
    assert(xorshift_state(387) == 0x3acdf122561427edu64);
    assert(xorshift_state(388) == 0x54ce4e0fba8854e2u64);
    assert(xorshift_state(389) == 0xd06dbcc474e23ccbu64);
    assert(xorshift_state(390) == 0xd743de07d7f9aa72u64);
    assert(xorshift_state(391) == 0xe8b80454183e85a6u64);
    assert(xorshift_state(392) == 0x2d583c6bcd41512du64);
    assert(xorshift_state(393) == 0xf4102e1c113438cfu64);
    assert(xorshift_state(394) == 0xe6f5cd61e5fd837eu64);
    assert(xorshift_state(395) == 0xdb9c904f26c967f8u64);
    assert(xorshift_state(396) == 0xf5f8123b304c0b37u64);
}

#[verifier::spinoff_prover]
proof fn lemma_row_11()
    requires
        xorshift_state(396) == 0xf5f8123b304c0b37u64,
    ensures
        row_matches(ROW_11, 11),
        off_seed(396, 432),
        xorshift_state(432) == 0x94f3f5c4ce81c604u64,
{
    assert(true) by {
        reveal(xorshift);
    }
    assert(xorshift(0xf5f8123b304c0b37u64) == 0xe3e5a24ba98abee1u64
        && xorshift(0xe3e5a24ba98abee1u64) == 0x4aab99806c1233dcu64
        && xorshift(0x4aab99806c1233dcu64) == 0x7fbcff50ef4b60bbu64
        && xorshift(0x7fbcff50ef4b60bbu64) == 0x7f6fafc9812eb8bau64
        && xorshift(0x7f6fafc9812eb8bau64) == 0xee24aff898038b4bu64
        && xorshift(0xee24aff898038b4bu64) == 0x6c2e3af165823e9du64
        && xorshift(0x6c2e3af165823e9du64) == 0x46fdb647db553da0u64
        && xorshift(0x46fdb647db553da0u64) == 0xbebb6b86d9aeffdbu64
        && xorshift(0xbebb6b86d9aeffdbu64) == 0x9dc8e760099134e4u64
        && xorshift(0x9dc8e760099134e4u64) == 0xdf1bb939d449af8du64
        && xorshift(0xdf1bb939d449af8du64) == 0x5c03fa417f5f7f92u64
        && xorshift(0x5c03fa417f5f7f92u64) == 0xa70ec9190e5665edu64
        && xorshift(0xa70ec9190e5665edu64) == 0x18d579de41a21266u64
        && xorshift(0x18d579de41a21266u64) == 0x6f92c35bc86d0fc2u64
        && xorshift(0x6f92c35bc86d0fc2u64) == 0xa5d3c3ae0ffc655du64
        && xorshift(0xa5d3c3ae0ffc655du64) == 0x40b70ef7f5ff6ad7u64
        && xorshift(0x40b70ef7f5ff6ad7u64) == 0xe77a32810b10c1c2u64
        && xorshift(0xe77a32810b10c1c2u64) == 0x2fe1edd9748cd0c1u64
        && xorshift(0x2fe1edd9748cd0c1u64) == 0xffe2885dcd09d920u64
        && xorshift(0xffe2885dcd09d920u64) == 0x688afc1c0ae58292u64
        && xorshift(0x688afc1c0ae58292u64) == 0xe813183f61ecad17u64
        && xorshift(0xe813183f61ecad17u64) == 0x31d73ea752bcd18du64
        && xorshift(0x31d73ea752bcd18du64) == 0x711d8161ffc06b6eu64
        && xorshift(0x711d8161ffc06b6eu64) == 0x7b7a5f752138f038u64
        && xorshift(0x7b7a5f752138f038u64) == 0x95bce42784f18fd8u64
        && xorshift(0x95bce42784f18fd8u64) == 0xc00be851f3ee9ac7u64
        && xorshift(0xc00be851f3ee9ac7u64) == 0x177b246e54931632u64
        && xorshift(0x177b246e54931632u64) == 0x75529f523705fc9eu64
        && xorshift(0x75529f523705fc9eu64) == 0x76f6730fcc4910e7u64
        && xorshift(0x76f6730fcc4910e7u64) == 0xf2c1628155855b06u64
        && xorshift(0xf2c1628155855b06u64) == 0x0a6f50913d785030u64
        && xorshift(0x0a6f50913d785030u64) == 0xfa1d1bf11230ac90u64
        && xorshift(0xfa1d1bf11230ac90u64) == 0xa6592c9fba3fe9c9u64
        && xorshift(0xa6592c9fba3fe9c9u64) == 0x1e12a17e7f3cc45au64
        && xorshift(0x1e12a17e7f3cc45au64) == 0x6220bcb502dceb52u64
        && xorshift(0x6220bcb502dceb52u64) == 0x94f3f5c4ce81c604u64) by (bit_vector);
    assert(xorshift_state(397) == 0xe3e5a24ba98abee1u64);
    assert(xorshift_state(398) == 0x4aab99806c1233dcu64);
    assert(xorshift_state(399) == 0x7fbcff50ef4b60bbu64);
    assert(xorshift_state(400) == 0x7f6fafc9812eb8bau64);
    assert(xorshift_state(401) == 0xee24aff898038b4bu64);
    assert(xorshift_state(402) == 0x6c2e3af165823e9du64);
    assert(xorshift_state(403) == 0x46fdb647db553da0u64);
    assert(xorshift_state(404) == 0xbebb6b86d9aeffdbu64);
    assert(xorshift_state(405) == 0x9dc8e760099134e4u64);
    assert(xorshift_state(406) == 0xdf1bb939d449af8du64);
    assert(xorshift_state(407) == 0x5c03fa417f5f7f92u64);
    assert(xorshift_state(408) == 0xa70ec9190e5665edu64);
    assert(xorshift_state(409) == 0x18d579de41a21266u64);
    assert(xorshift_state(410) == 0x6f92c35bc86d0fc2u64);
    assert(xorshift_state(411) == 0xa5d3c3ae0ffc655du64);
    assert(xorshift_state(412) == 0x40b70ef7f5ff6ad7u64);
    assert(xorshift_state(413) == 0xe77a32810b10c1c2u64);
    assert(xorshift_state(414) == 0x2fe1edd9748cd0c1u64);
    assert(xorshift_state(415) == 0xffe2885dcd09d920u64);
    assert(xorshift_state(416) == 0x688afc1c0ae58292u64);
    assert(xorshift_state(417) == 0xe813183f61ecad17u64);
    assert(xorshift_state(418) == 0x31d73ea752bcd18du64);
    assert(xorshift_state(419) == 0x711d8161ffc06b6eu64);
    assert(xorshift_state(420) == 0x7b7a5f752138f038u64);
    assert(xorshift_state(421) == 0x95bce42784f18fd8u64);
    assert(xorshift_state(422) == 0xc00be851f3ee9ac7u64);
    assert(xorshift_state(423) == 0x177b246e54931632u64);
    assert(xorshift_state(424) == 0x75529f523705fc9eu64);
    assert(xorshift_state(425) == 0x76f6730fcc4910e7u64);
    assert(xorshift_state(426) == 0xf2c1628155855b06u64);
    assert(xorshift_state(427) == 0x0a6f50913d785030u64);
    assert(xorshift_state(428) == 0xfa1d1bf11230ac90u64);
    assert(xorshift_state(429) == 0xa6592c9fba3fe9c9u64);
    assert(xorshift_state(430) == 0x1e12a17e7f3cc45au64);
    assert(xorshift_state(431) == 0x6220bcb502dceb52u64);
    assert(xorshift_state(432) == 0x94f3f5c4ce81c604u64);
}

#[verifier::spinoff_prover]
proof fn lemma_row_12()
    requires
        xorshift_state(432) == 0x94f3f5c4ce81c604u64,
    ensures
        row_matches(ROW_12, 12),
        off_seed(432, 468),
        xorshift_state(468) == 0xfe2fe4ddfa45cb92u64,
{
    assert(true) by {
        reveal(xorshift);
    }
    assert(xorshift(0x94f3f5c4ce81c604u64) == 0x1e06459756bdc488u64
        && xorshift(0x1e06459756bdc488u64) == 0x5b2519ff55f29d01u64
        && xorshift(0x5b2519ff55f29d01u64) == 0x74a5ce1bb4a8187bu64
        && xorshift(0x74a5ce1bb4a8187bu64) == 0x2703206fc7de368bu64
        && xorshift(0x2703206fc7de368bu64) == 0xc9c2973fb9414826u64
        && xorshift(0xc9c2973fb9414826u64) == 0xcfbc541db9090336u64
        && xorshift(0xcfbc541db9090336u64) == 0x7c405c40d93d1cb0u64
        && xorshift(0x7c405c40d93d1cb0u64) == 0xd8f4bf55214c4a89u64
        && xorshift(0xd8f4bf55214c4a89u64) == 0x011485d0f1f5505cu64
        && xorshift(0x011485d0f1f5505cu64) == 0x1d3ec84bdcb12dfcu64
        && xorshift(0x1d3ec84bdcb12dfcu64) == 0x7ccb594323b2b0a7u64
        && xorshift(0x7ccb594323b2b0a7u64) == 0xe152c5d527411c06u64
        && xorshift(0xe152c5d527411c06u64) == 0xdb654c6fc1b45fbeu64
        && xorshift(0xdb654c6fc1b45fbeu64) == 0xb86e949fc9d51881u64
        && xorshift(0xb86e949fc9d51881u64) == 0x44d4d75f45f0b2f0u64
        && xorshift(0x44d4d75f45f0b2f0u64) == 0x5cbe638d4e23ef95u64
        && xorshift(0x5cbe638d4e23ef95u64) == 0x3a5516b07ba2ed0au64
        && xorshift(0x3a5516b07ba2ed0au64) == 0xa65d4368faefaa50u64
        && xorshift(0xa65d4368faefaa50u64) == 0x7736f7f8a7b2e104u64
        && xorshift(0x7736f7f8a7b2e104u64) == 0x490bbc026de945c6u64
        && xorshift(0x490bbc026de945c6u64) == 0xf24e91ea764126cdu64
        && xorshift(0xf24e91ea764126cdu64) == 0x510b14e779bdb7c0u64
        && xorshift(0x510b14e779bdb7c0u64) == 0x9bbe099117853cafu64
        && xorshift(0x9bbe099117853cafu64) == 0x3c57d5d6895cfd16u64
        && xorshift(0x3c57d5d6895cfd16u64) == 0x7a8907536e0bc16cu64
        && xorshift(0x7a8907536e0bc16cu64) == 0x0259c85329d60deeu64
        && xorshift(0x0259c85329d60deeu64) == 0x2f437d450f511a75u64
        && xorshift(0x2f437d450f511a75u64) == 0x5646ef9978458501u64
        && xorshift(0x5646ef9978458501u64) == 0xdc837df837e26e4bu64
        && xorshift(0xdc837df837e26e4bu64) == 0xb5bee64cc2715857u64
        && xorshift(0xb5bee64cc2715857u64) == 0x485849ac72e74f27u64
        && xorshift(0x485849ac72e74f27u64) == 0x7911e8142ac7a879u64
        && xorshift(0x7911e8142ac7a879u64) == 0xd3b7c77874a51969u64
        && xorshift(0xd3b7c77874a51969u64) == 0xdbf064315c11291bu64
        && xorshift(0xdbf064315c11291bu64) == 0x90809cac44d22d89u64
        && xorshift(0x90809cac44d22d89u64) == 0xfe2fe4ddfa45cb92u64) by (bit_vector);
    assert(xorshift_state(433) == 0x1e06459756bdc488u64);
    assert(xorshift_state(434) == 0x5b2519ff55f29d01u64);
    assert(xorshift_state(435) == 0x74a5ce1bb4a8187bu64);
    assert(xorshift_state(436) == 0x2703206fc7de368bu64);
    assert(xorshift_state(437) == 0xc9c2973fb9414826u64);
    assert(xorshift_state(438) == 0xcfbc541db9090336u64);
    assert(xorshift_state(439) == 0x7c405c40d93d1cb0u64);
    assert(xorshift_state(440) == 0xd8f4bf55214c4a89u64);
    assert(xorshift_state(441) == 0x011485d0f1f5505cu64);
    assert(xorshift_state(442) == 0x1d3ec84bdcb12dfcu64);
    assert(xorshift_state(443) == 0x7ccb594323b2b0a7u64);
    assert(xorshift_state(444) == 0xe152c5d527411c06u64);
    assert(xorshift_state(445) == 0xdb654c6fc1b45fbeu64);
    assert(xorshift_state(446) == 0xb86e949fc9d51881u64);
    assert(xorshift_state(447) == 0x44d4d75f45f0b2f0u64);
    assert(xorshift_state(448) == 0x5cbe638d4e23ef95u64);
    assert(xorshift_state(449) == 0x3a5516b07ba2ed0au64);
    assert(xorshift_state(450) == 0xa65d4368faefaa50u64);
    assert(xorshift_state(451) == 0x7736f7f8a7b2e104u64);
    assert(xorshift_state(452) == 0x490bbc026de945c6u64);
    assert(xorshift_state(453) == 0xf24e91ea764126cdu64);
    assert(xorshift_state(454) == 0x510b14e779bdb7c0u64);
    assert(xorshift_state(455) == 0x9bbe099117853cafu64);
    assert(xorshift_state(456) == 0x3c57d5d6895cfd16u64);
    assert(xorshift_state(457) == 0x7a8907536e0bc16cu64);
    assert(xorshift_state(458) == 0x0259c85329d60deeu64);
    assert(xorshift_state(459) == 0x2f437d450f511a75u64);
    assert(xorshift_state(460) == 0x5646ef9978458501u64);
    assert(xorshift_state(461) == 0xdc837df837e26e4bu64);
    assert(xorshift_state(462) == 0xb5bee64cc2715857u64);
    assert(xorshift_state(463) == 0x485849ac72e74f27u64);
    assert(xorshift_state(464) == 0x7911e8142ac7a879u64);
    assert(xorshift_state(465) == 0xd3b7c77874a51969u64);
    assert(xorshift_state(466) == 0xdbf064315c11291bu64);
    assert(xorshift_state(467) == 0x90809cac44d22d89u64);
    assert(xorshift_state(468) == 0xfe2fe4ddfa45cb92u64);
}

#[verifier::spinoff_prover]
proof fn lemma_row_13()
    requires
        xorshift_state(468) == 0xfe2fe4ddfa45cb92u64,
    ensures
        row_matches(ROW_13, 13),
        off_seed(468, 504),
        xorshift_state(504) == 0xd989ae95cc6266a2u64,
{
    assert(true) by {
        reveal(xorshift);
    }
    assert(xorshift(0xfe2fe4ddfa45cb92u64) == 0x64f5e041a0bbe485u64
        && xorshift(0x64f5e041a0bbe485u64) == 0x86b0ccd8558b120cu64
        && xorshift(0x86b0ccd8558b120cu64) == 0xbdde5aafebf50728u64
        && xorshift(0xbdde5aafebf50728u64) == 0x175b6392a7ca2726u64
        && xorshift(0x175b6392a7ca2726u64) == 0xb1d50cd44138bae8u64
        && xorshift(0xb1d50cd44138bae8u64) == 0x279a7a6853f3719du64
        && xorshift(0x279a7a6853f3719du64) == 0xd5eafd80b1c7503eu64
        && xorshift(0xd5eafd80b1c7503eu64) == 0x37900881094b111eu64
        && xorshift(0x37900881094b111eu64) == 0x651b5e873ac600bcu64
        && xorshift(0x651b5e873ac600bcu64) == 0x538ea4e4025e23bdu64
        && xorshift(0x538ea4e4025e23bdu64) == 0x87d133ad38d1d0bau64
        && xorshift(0x87d133ad38d1d0bau64) == 0x1bdb041857f51d9bu64
        && xorshift(0x1bdb041857f51d9bu64) == 0x0658cda6db6ef160u64
        && xorshift(0x0658cda6db6ef160u64) == 0x821ee8767a4c7482u64
        && xorshift(0x821ee8767a4c7482u64) == 0x514d111a92e38cebu64
        && xorshift(0x514d111a92e38cebu64) == 0xcd0842b04cdc1132u64
        && xorshift(0xcd0842b04cdc1132u64) == 0x2bafc572d247a590u64
        && xorshift(0x2bafc572d247a590u64) == 0xeaaf3974cf0e4edbu64
        && xorshift(0xeaaf3974cf0e4edbu64) == 0x4a32fa6525d48486u64
        && xorshift(0x4a32fa6525d48486u64) == 0x5190b63f9230cc0fu64
        && xorshift(0x5190b63f9230cc0fu64) == 0x923b1bbde4084e57u64
        && xorshift(0x923b1bbde4084e57u64) == 0x8c4b1640c20f2b0bu64
        && xorshift(0x8c4b1640c20f2b0bu64) == 0xff64425c0a1a979du64
        && xorshift(0xff64425c0a1a979du64) == 0x4ef35028adbce5f2u64
        && xorshift(0x4ef35028adbce5f2u64) == 0x7697b7d54e12a0b9u64
        && xorshift(0x7697b7d54e12a0b9u64) == 0x093bac4823418bb8u64
        && xorshift(0x093bac4823418bb8u64) == 0xe6ab69559f4ce6afu64
        && xorshift(0xe6ab69559f4ce6afu64) == 0x38842e3512da34a2u64
        && xorshift(0x38842e3512da34a2u64) == 0xaed518bb5870e84bu64
        && xorshift(0xaed518bb5870e84bu64) == 0xe37da8b4d9457b5bu64
        && xorshift(0xe37da8b4d9457b5bu64) == 0x9d31787fc018476du64
        && xorshift(0x9d31787fc018476du64) == 0x49a29fb428220ca3u64
        && xorshift(0x49a29fb428220ca3u64) == 0x7f6aa04f0991007au64
        && xorshift(0x7f6aa04f0991007au64) == 0x24ca20652a397cfau64
        && xorshift(0x24ca20652a397cfau64) == 0x70578b72a0ab7083u64
        && xorshift(0x70578b72a0ab7083u64) == 0xd989ae95cc6266a2u64) by (bit_vector);
    assert(xorshift_state(469) == 0x64f5e041a0bbe485u64);
    assert(xorshift_state(470) == 0x86b0ccd8558b120cu64);
    assert(xorshift_state(471) == 0xbdde5aafebf50728u64);
    assert(xorshift_state(472) == 0x175b6392a7ca2726u64);
    assert(xorshift_state(473) == 0xb1d50cd44138bae8u64);
    assert(xorshift_state(474) == 0x279a7a6853f3719du64);
    assert(xorshift_state(475) == 0xd5eafd80b1c7503eu64);
    assert(xorshift_state(476) == 0x37900881094b111eu64);
    assert(xorshift_state(477) == 0x651b5e873ac600bcu64);
    assert(xorshift_state(478) == 0x538ea4e4025e23bdu64);
    assert(xorshift_state(479) == 0x87d133ad38d1d0bau64);
    assert(xorshift_state(480) == 0x1bdb041857f51d9bu64);
    assert(xorshift_state(481) == 0x0658cda6db6ef160u64);
    assert(xorshift_state(482) == 0x821ee8767a4c7482u64);
    assert(xorshift_state(483) == 0x514d111a92e38cebu64);
    assert(xorshift_state(484) == 0xcd0842b04cdc1132u64);
    assert(xorshift_state(485) == 0x2bafc572d247a590u64);
    assert(xorshift_state(486) == 0xeaaf3974cf0e4edbu64);
    assert(xorshift_state(487) == 0x4a32fa6525d48486u64);
    assert(xorshift_state(488) == 0x5190b63f9230cc0fu64);
    assert(xorshift_state(489) == 0x923b1bbde4084e57u64);
    assert(xorshift_state(490) == 0x8c4b1640c20f2b0bu64);
    assert(xorshift_state(491) == 0xff64425c0a1a979du64);
    assert(xorshift_state(492) == 0x4ef35028adbce5f2u64);
    assert(xorshift_state(493) == 0x7697b7d54e12a0b9u64);
    assert(xorshift_state(494) == 0x093bac4823418bb8u64);
    assert(xorshift_state(495) == 0xe6ab69559f4ce6afu64);
    assert(xorshift_state(496) == 0x38842e3512da34a2u64);
    assert(xorshift_state(497) == 0xaed518bb5870e84bu64);
    assert(xorshift_state(498) == 0xe37da8b4d9457b5bu64);
    assert(xorshift_state(499) == 0x9d31787fc018476du64);
    assert(xorshift_state(500) == 0x49a29fb428220ca3u64);
    assert(xorshift_state(501) == 0x7f6aa04f0991007au64);
    assert(xorshift_state(502) == 0x24ca20652a397cfau64);
    assert(xorshift_state(503) == 0x70578b72a0ab7083u64);
    assert(xorshift_state(504) == 0xd989ae95cc6266a2u64);
}

#[verifier::spinoff_prover]
proof fn lemma_row_14()
    requires
        xorshift_state(504) == 0xd989ae95cc6266a2u64,
    ensures
        row_matches(ROW_14, 14),
        off_seed(504, 540),
        xorshift_state(540) == 0xfff3cded931891d5u64,
{
    assert(true) by {
        reveal(xorshift);
    }
    assert(xorshift(0xd989ae95cc6266a2u64) == 0xafecc65926694aefu64
        && xorshift(0xafecc65926694aefu64) == 0x6debe304a05ec3bau64
        && xorshift(0x6debe304a05ec3bau64) == 0xd26aac52c7a3d0bdu64
        && xorshift(0xd26aac52c7a3d0bdu64) == 0xec70d4d1c077185cu64
        && xorshift(0xec70d4d1c077185cu64) == 0x850a03725fe2616cu64
        && xorshift(0x850a03725fe2616cu64) == 0xc4d09fcff2b47eaeu64
        && xorshift(0xc4d09fcff2b47eaeu64) == 0xb033ac6cb43d7dd3u64
        && xorshift(0xb033ac6cb43d7dd3u64) == 0x4908ddfeea6013e8u64
        && xorshift(0x4908ddfeea6013e8u64) == 0x8f757529de5329cfu64
        && xorshift(0x8f757529de5329cfu64) == 0xfd6f164644a41c5cu64
        && xorshift(0xfd6f164644a41c5cu64) == 0x3d46542ce469c364u64
        && xorshift(0x3d46542ce469c364u64) == 0x684d704a0c7949e2u64
        && xorshift(0x684d704a0c7949e2u64) == 0xb485e7b9a8ed83f1u64
        && xorshift(0xb485e7b9a8ed83f1u64) == 0x6660964459ce84b6u64
        && xorshift(0x6660964459ce84b6u64) == 0xeecfa9d29a34f43fu64
        && xorshift(0xeecfa9d29a34f43fu64) == 0x39004815c8947217u64
        && xorshift(0x39004815c8947217u64) == 0xd9a86453363d3f33u64
        && xorshift(0xd9a86453363d3f33u64) == 0x59ab37606be2e98du64
        && xorshift(0x59ab37606be2e98du64) == 0x57e9a915d082ef1eu64
        && xorshift(0x57e9a915d082ef1eu64) == 0x684989d45cfbed40u64
        && xorshift(0x684989d45cfbed40u64) == 0x915e8a6d22254a9au64
        && xorshift(0x915e8a6d22254a9au64) == 0x5078b8b4157ee68fu64
        && xorshift(0x5078b8b4157ee68fu64) == 0x8b3f1a174f385882u64
        && xorshift(0x8b3f1a174f385882u64) == 0x7882415735c648b3u64
        && xorshift(0x7882415735c648b3u64) == 0xdd89b0f332ed88e2u64
        && xorshift(0xdd89b0f332ed88e2u64) == 0x184744ef88102b73u64
        && xorshift(0x184744ef88102b73u64) == 0xf037ac4f39aeb7e5u64
        && xorshift(0xf037ac4f39aeb7e5u64) == 0x6a6d02f57d18b3cau64
        && xorshift(0x6a6d02f57d18b3cau64) == 0x5fbe4562a7ed302du64
        && xorshift(0x5fbe4562a7ed302du64) == 0xfd444a6abdf1410du64
        && xorshift(0xfd444a6abdf1410du64) == 0x6b3f7619bd6540cfu64
        && xorshift(0x6b3f7619bd6540cfu64) == 0xf69b479acc4a598eu64
        && xorshift(0xf69b479acc4a598eu64) == 0x030b8ec57d0f6ebdu64
        && xorshift(0x030b8ec57d0f6ebdu64) == 0x7c7a34d4a7b97f20u64
        && xorshift(0x7c7a34d4a7b97f20u64) == 0xf852fff844f1c5deu64
        && xorshift(0xf852fff844f1c5deu64) == 0xfff3cded931891d5u64) by (bit_vector);
    assert(xorshift_state(505) == 0xafecc65926694aefu64);
    assert(xorshift_state(506) == 0x6debe304a05ec3bau64);
    assert(xorshift_state(507) == 0xd26aac52c7a3d0bdu64);
    assert(xorshift_state(508) == 0xec70d4d1c077185cu64);
    assert(xorshift_state(509) == 0x850a03725fe2616cu64);
    assert(xorshift_state(510) == 0xc4d09fcff2b47eaeu64);
    assert(xorshift_state(511) == 0xb033ac6cb43d7dd3u64);
    assert(xorshift_state(512) == 0x4908ddfeea6013e8u64);
    assert(xorshift_state(513) == 0x8f757529de5329cfu64);
    assert(xorshift_state(514) == 0xfd6f164644a41c5cu64);
    assert(xorshift_state(515) == 0x3d46542ce469c364u64);
    assert(xorshift_state(516) == 0x684d704a0c7949e2u64);
    assert(xorshift_state(517) == 0xb485e7b9a8ed83f1u64);
    assert(xorshift_state(518) == 0x6660964459ce84b6u64);
    assert(xorshift_state(519) == 0xeecfa9d29a34f43fu64);
    assert(xorshift_state(520) == 0x39004815c8947217u64);
    assert(xorshift_state(521) == 0xd9a86453363d3f33u64);
    assert(xorshift_state(522) == 0x59ab37606be2e98du64);
    assert(xorshift_state(523) == 0x57e9a915d082ef1eu64);
    assert(xorshift_state(524) == 0x684989d45cfbed40u64);
    assert(xorshift_state(525) == 0x915e8a6d22254a9au64);
    assert(xorshift_state(526) == 0x5078b8b4157ee68fu64);
    assert(xorshift_state(527) == 0x8b3f1a174f385882u64);
    assert(xorshift_state(528) == 0x7882415735c648b3u64);
    assert(xorshift_state(529) == 0xdd89b0f332ed88e2u64);
    assert(xorshift_state(530) == 0x184744ef88102b73u64);
    assert(xorshift_state(531) == 0xf037ac4f39aeb7e5u64);
    assert(xorshift_state(532) == 0x6a6d02f57d18b3cau64);
    assert(xorshift_state(533) == 0x5fbe4562a7ed302du64);
    assert(xorshift_state(534) == 0xfd444a6abdf1410du64);
    assert(xorshift_state(535) == 0x6b3f7619bd6540cfu64);
    assert(xorshift_state(536) == 0xf69b479acc4a598eu64);
    assert(xorshift_state(537) == 0x030b8ec57d0f6ebdu64);
    assert(xorshift_state(538) == 0x7c7a34d4a7b97f20u64);
    assert(xorshift_state(539) == 0xf852fff844f1c5deu64);
    assert(xorshift_state(540) == 0xfff3cded931891d5u64);
}

#[verifier::spinoff_prover]
proof fn lemma_row_15()
    requires
        xorshift_state(540) == 0xfff3cded931891d5u64,
    ensures
        row_matches(ROW_15, 15),
        off_seed(540, 576),
        xorshift_state(576) == 0xaae2fbee6d8f9c84u64,
{
    assert(true) by {
        reveal(xorshift);
    }
    assert(xorshift(0xfff3cded931891d5u64) == 0x41a1db31774c75b6u64
        && xorshift(0x41a1db31774c75b6u64) == 0x8e54ea21c9b340ddu64
        && xorshift(0x8e54ea21c9b340ddu64) == 0xf655ef66ecd3b11cu64
        && xorshift(0xf655ef66ecd3b11cu64) == 0xca1c8712c139d17eu64
        && xorshift(0xca1c8712c139d17eu64) == 0x1f5c034bea583d5cu64
        && xorshift(0x1f5c034bea583d5cu64) == 0xb7f2ccac58645a26u64
        && xorshift(0xb7f2ccac58645a26u64) == 0xfde4ac2224a2db12u64
        && xorshift(0xfde4ac2224a2db12u64) == 0x3a7e0f1927771a24u64
        && xorshift(0x3a7e0f1927771a24u64) == 0xd92a46d7d19bfd10u64
        && xorshift(0xd92a46d7d19bfd10u64) == 0x2be993567ab18eeau64
        && xorshift(0x2be993567ab18eeau64) == 0xacc0cd4c65141777u64
        && xorshift(0xacc0cd4c65141777u64) == 0x92d9e7073f070299u64
        && xorshift(0x92d9e7073f070299u64) == 0x4aa9533305528adcu64
        && xorshift(0x4aa9533305528adcu64) == 0x3bf260bc573318c9u64
        && xorshift(0x3bf260bc573318c9u64) == 0x3417210a59326cb8u64
        && xorshift(0x3417210a59326cb8u64) == 0xdc669fe0004e2661u64
        && xorshift(0xdc669fe0004e2661u64) == 0x5a2984c013d1026du64
        && xorshift(0x5a2984c013d1026du64) == 0xa10a6a4071a99b29u64
        && xorshift(0xa10a6a4071a99b29u64) == 0x2ce1b02fecf7225fu64
        && xorshift(0x2ce1b02fecf7225fu64) == 0x108550711d1bbbdbu64
        && xorshift(0x108550711d1bbbdbu64) == 0x7195f85dfa6c1a6cu64
        && xorshift(0x7195f85dfa6c1a6cu64) == 0x383fc839eb63d958u64
        && xorshift(0x383fc839eb63d958u64) == 0xc9c4f26faabc48eau64
        && xorshift(0xc9c4f26faabc48eau64) == 0x7d4ab2fac6104afbu64
        && xorshift(0x7d4ab2fac6104afbu64) == 0xa89abc4fd78db4aeu64
        && xorshift(0xa89abc4fd78db4aeu64) == 0x3e8b5b8795544447u64
        && xorshift(0x3e8b5b8795544447u64) == 0xe9aed1b17df91d0fu64
        && xorshift(0xe9aed1b17df91d0fu64) == 0xac1b4a3adb0e4cf5u64
        && xorshift(0xac1b4a3adb0e4cf5u64) == 0x9625e0123eedcd2cu64
        && xorshift(0x9625e0123eedcd2cu64) == 0xfb73d80da32addb6u64
        && xorshift(0xfb73d80da32addb6u64) == 0x9012da6a6277258du64
        && xorshift(0x9012da6a6277258du64) == 0x98d8b69edec70886u64
        && xorshift(0x98d8b69edec70886u64) == 0x782e1ccc7d866717u64
        && xorshift(0x782e1ccc7d866717u64) == 0x42746c56d4344e19u64
        && xorshift(0x42746c56d4344e19u64) == 0x591ab124fcc680c5u64
        && xorshift(0x591ab124fcc680c5u64) == 0xaae2fbee6d8f9c84u64) by (bit_vector);
    assert(xorshift_state(541) == 0x41a1db31774c75b6u64);
    assert(xorshift_state(542) == 0x8e54ea21c9b340ddu64);
    assert(xorshift_state(543) == 0xf655ef66ecd3b11cu64);
    assert(xorshift_state(544) == 0xca1c8712c139d17eu64);
    assert(xorshift_state(545) == 0x1f5c034bea583d5cu64);
    assert(xorshift_state(546) == 0xb7f2ccac58645a26u64);
    assert(xorshift_state(547) == 0xfde4ac2224a2db12u64);
    assert(xorshift_state(548) == 0x3a7e0f1927771a24u64);
    assert(xorshift_state(549) == 0xd92a46d7d19bfd10u64);
    assert(xorshift_state(550) == 0x2be993567ab18eeau64);
    assert(xorshift_state(551) == 0xacc0cd4c65141777u64);
    assert(xorshift_state(552) == 0x92d9e7073f070299u64);
    assert(xorshift_state(553) == 0x4aa9533305528adcu64);
    assert(xorshift_state(554) == 0x3bf260bc573318c9u64);
    assert(xorshift_state(555) == 0x3417210a59326cb8u64);
    assert(xorshift_state(556) == 0xdc669fe0004e2661u64);
    assert(xorshift_state(557) == 0x5a2984c013d1026du64);
    assert(xorshift_state(558) == 0xa10a6a4071a99b29u64);
    assert(xorshift_state(559) == 0x2ce1b02fecf7225fu64);
    assert(xorshift_state(560) == 0x108550711d1bbbdbu64);
    assert(xorshift_state(561) == 0x7195f85dfa6c1a6cu64);
    assert(xorshift_state(562) == 0x383fc839eb63d958u64);
    assert(xorshift_state(563) == 0xc9c4f26faabc48eau64);
    assert(xorshift_state(564) == 0x7d4ab2fac6104afbu64);
    assert(xorshift_state(565) == 0xa89abc4fd78db4aeu64);
    assert(xorshift_state(566) == 0x3e8b5b8795544447u64);
    assert(xorshift_state(567) == 0xe9aed1b17df91d0fu64);
    assert(xorshift_state(568) == 0xac1b4a3adb0e4cf5u64);
    assert(xorshift_state(569) == 0x9625e0123eedcd2cu64);
    assert(xorshift_state(570) == 0xfb73d80da32addb6u64);
    assert(xorshift_state(571) == 0x9012da6a6277258du64);
    assert(xorshift_state(572) == 0x98d8b69edec70886u64);
    assert(xorshift_state(573) == 0x782e1ccc7d866717u64);
    assert(xorshift_state(574) == 0x42746c56d4344e19u64);
    assert(xorshift_state(575) == 0x591ab124fcc680c5u64);
    assert(xorshift_state(576) == 0xaae2fbee6d8f9c84u64);
}

#[verifier::spinoff_prover]
proof fn lemma_row_16()
    requires
        xorshift_state(576) == 0xaae2fbee6d8f9c84u64,
    ensures
        row_matches(ROW_16, 16),
        off_seed(576, 612),
        xorshift_state(612) == 0x04b489bb3cff9381u64,
{
    assert(true) by {
        reveal(xorshift);
    }
    assert(xorshift(0xaae2fbee6d8f9c84u64) == 0xe4124a75645922bdu64
        && xorshift(0xe4124a75645922bdu64) == 0x1261262e83fe9fb8u64
        && xorshift(0x1261262e83fe9fb8u64) == 0x49b25aeeeba78c87u64
        && xorshift(0x49b25aeeeba78c87u64) == 0xb3c004932abf025eu64
        && xorshift(0xb3c004932abf025eu64) == 0x383a43c514d52bdau64
        && xorshift(0x383a43c514d52bdau64) == 0xb998790760d7370du64
        && xorshift(0xb998790760d7370du64) == 0x7fba9e42497cfa23u64
        && xorshift(0x7fba9e42497cfa23u64) == 0x49ac29eadbbaeb17u64
        && xorshift(0x49ac29eadbbaeb17u64) == 0x6df92bd3cbd7bb01u64
        && xorshift(0x6df92bd3cbd7bb01u64) == 0xe00a899186a0f437u64
        && xorshift(0xe00a899186a0f437u64) == 0x2034ee1ba328581fu64
        && xorshift(0x2034ee1ba328581fu64) == 0x5618dfbd8ba5ef6fu64
        && xorshift(0x5618dfbd8ba5ef6fu64) == 0x2d5df85d9ac69f71u64
        && xorshift(0x2d5df85d9ac69f71u64) == 0x5c5460e69fa4ee0fu64
        && xorshift(0x5c5460e69fa4ee0fu64) == 0x95006eb7ae47c413u64
        && xorshift(0x95006eb7ae47c413u64) == 0xf5746699f6de2f5bu64
        && xorshift(0xf5746699f6de2f5bu64) == 0x54b17854fcd925c5u64
        && xorshift(0x54b17854fcd925c5u64) == 0x5b4c1fa2ca4d46ceu64
        && xorshift(0x5b4c1fa2ca4d46ceu64) == 0xb5c45ec5ebd7afc3u64
        && xorshift(0xb5c45ec5ebd7afc3u64) == 0x8a901a5f40ab905cu64
        && xorshift(0x8a901a5f40ab905cu64) == 0x03950824063d507cu64
        && xorshift(0x03950824063d507cu64) == 0xf4307d2700d2b5dcu64
        && xorshift(0xf4307d2700d2b5dcu64) == 0x926ded8ce3abe7b7u64
        && xorshift(0x926ded8ce3abe7b7u64) == 0xbdb711dd1713bdb8u64
        && xorshift(0xbdb711dd1713bdb8u64) == 0x0b819692f7e3f4c3u64
        && xorshift(0x0b819692f7e3f4c3u64) == 0xe6ddc72c93bd63eau64
        && xorshift(0xe6ddc72c93bd63eau64) == 0x1567368ecee5a3adu64
        && xorshift(0x1567368ecee5a3adu64) == 0xf7483e46993123aau64
        && xorshift(0xf7483e46993123aau64) == 0x281514c7aae4eb6du64
        && xorshift(0x281514c7aae4eb6du64) == 0x7f28f994b21059fbu64
        && xorshift(0x7f28f994b21059fbu64) == 0xd6c873b3db4d6788u64
        && xorshift(0xd6c873b3db4d6788u64) == 0x3098f26dfddd1f47u64
        && xorshift(0x3098f26dfddd1f47u64) == 0xe013025edbfb94b9u64
        && xorshift(0xe013025edbfb94b9u64) == 0x507fbcef319e6dd0u64
        && xorshift(0x507fbcef319e6dd0u64) == 0x9a7f15d10fca250bu64
        && xorshift(0x9a7f15d10fca250bu64) == 0x04b489bb3cff9381u64) by (bit_vector);
    assert(xorshift_state(577) == 0xe4124a75645922bdu64);
    assert(xorshift_state(578) == 0x1261262e83fe9fb8u64);
    assert(xorshift_state(579) == 0x49b25aeeeba78c87u64);
    assert(xorshift_state(580) == 0xb3c004932abf025eu64);
    assert(xorshift_state(581) == 0x383a43c514d52bdau64);
    assert(xorshift_state(582) == 0xb998790760d7370du64);
    assert(xorshift_state(583) == 0x7fba9e42497cfa23u64);
    assert(xorshift_state(584) == 0x49ac29eadbbaeb17u64);
    assert(xorshift_state(585) == 0x6df92bd3cbd7bb01u64);
    assert(xorshift_state(586) == 0xe00a899186a0f437u64);
    assert(xorshift_state(587) == 0x2034ee1ba328581fu64);
    assert(xorshift_state(588) == 0x5618dfbd8ba5ef6fu64);
    assert(xorshift_state(589) == 0x2d5df85d9ac69f71u64);
    assert(xorshift_state(590) == 0x5c5460e69fa4ee0fu64);
    assert(xorshift_state(591) == 0x95006eb7ae47c413u64);
    assert(xorshift_state(592) == 0xf5746699f6de2f5bu64);
    assert(xorshift_state(593) == 0x54b17854fcd925c5u64);
    assert(xorshift_state(594) == 0x5b4c1fa2ca4d46ceu64);
    assert(xorshift_state(595) == 0xb5c45ec5ebd7afc3u64);
    assert(xorshift_state(596) == 0x8a901a5f40ab905cu64);
    assert(xorshift_state(597) == 0x03950824063d507cu64);
    assert(xorshift_state(598) == 0xf4307d2700d2b5dcu64);
    assert(xorshift_state(599) == 0x926ded8ce3abe7b7u64);
    assert(xorshift_state(600) == 0xbdb711dd1713bdb8u64);
    assert(xorshift_state(601) == 0x0b819692f7e3f4c3u64);
    assert(xorshift_state(602) == 0xe6ddc72c93bd63eau64);
    assert(xorshift_state(603) == 0x1567368ecee5a3adu64);
    assert(xorshift_state(604) == 0xf7483e46993123aau64);
    assert(xorshift_state(605) == 0x281514c7aae4eb6du64);
    assert(xorshift_state(606) == 0x7f28f994b21059fbu64);
    assert(xorshift_state(607) == 0xd6c873b3db4d6788u64);
    assert(xorshift_state(608) == 0x3098f26dfddd1f47u64);
    assert(xorshift_state(609) == 0xe013025edbfb94b9u64);
    assert(xorshift_state(610) == 0x507fbcef319e6dd0u64);
    assert(xorshift_state(611) == 0x9a7f15d10fca250bu64);
    assert(xorshift_state(612) == 0x04b489bb3cff9381u64);
}

#[verifier::spinoff_prover]
proof fn lemma_row_17()
    requires
        xorshift_state(612) == 0x04b489bb3cff9381u64,
    ensures
        row_matches(ROW_17, 17),
        off_seed(612, 648),
        xorshift_state(648) == 0xa767ea9e02375dbau64,
{
    assert(true) by {
        reveal(xorshift);
    }
    assert(xorshift(0x04b489bb3cff9381u64) == 0x4759e7dddedeace6u64
        && xorshift(0x4759e7dddedeace6u64) == 0x4a291617d72ae83fu64
        && xorshift(0x4a291617d72ae83fu64) == 0x1e6ce559cb67522fu64
        && xorshift(0x1e6ce559cb67522fu64) == 0x24d8c54ca5f6f74bu64
        && xorshift(0x24d8c54ca5f6f74bu64) == 0x5aaa8c82cf23a865u64
        && xorshift(0x5aaa8c82cf23a865u64) == 0x4ab44e7adbb15675u64
        && xorshift(0x4ab44e7adbb15675u64) == 0x04b0321cfbaf0999u64
        && xorshift(0x04b0321cfbaf0999u64) == 0x9691db61eb3d11cau64
        && xorshift(0x9691db61eb3d11cau64) == 0x973296e6f7445969u64
        && xorshift(0x973296e6f7445969u64) == 0xed5955bd37a7ab9bu64
        && xorshift(0xed5955bd37a7ab9bu64) == 0x9b3f8c0d9549620cu64
        && xorshift(0x9b3f8c0d9549620cu64) == 0xefd8a22c17eaf3c8u64
        && xorshift(0xefd8a22c17eaf3c8u64) == 0xcf4bcc91435ed42fu64
        && xorshift(0xcf4bcc91435ed42fu64) == 0x19d28ee268668247u64
        && xorshift(0x19d28ee268668247u64) == 0xf44c14d518583e83u64
        && xorshift(0xf44c14d518583e83u64) == 0x43585ddf3fcb4e3eu64
        && xorshift(0x43585ddf3fcb4e3eu64) == 0xb2d6481334e49722u64
        && xorshift(0xb2d6481334e49722u64) == 0x7686f44b1454d68cu64
        && xorshift(0x7686f44b1454d68cu64) == 0xba8792dcb5da5c21u64
        && xorshift(0xba8792dcb5da5c21u64) == 0x3093df2ab010c0d9u64
        && xorshift(0x3093df2ab010c0d9u64) == 0x8395968d176bf718u64
        && xorshift(0x8395968d176bf718u64) == 0x4937eebf64b7e6f6u64
        && xorshift(0x4937eebf64b7e6f6u64) == 0x31d2549e222ff4bbu64
        && xorshift(0x31d2549e222ff4bbu64) == 0x5c43c5f9a025e592u64
        && xorshift(0x5c43c5f9a025e592u64) == 0x3488c543f31c8ad9u64
        && xorshift(0x3488c543f31c8ad9u64) == 0xd8d4bf50699b258cu64
        && xorshift(0xd8d4bf50699b258cu64) == 0xd1af59662abef0c7u64
        && xorshift(0xd1af59662abef0c7u64) == 0x0ce5b5972e835ce6u64
        && xorshift(0x0ce5b5972e835ce6u64) == 0x46ec69cc8c2ba3dfu64
        && xorshift(0x46ec69cc8c2ba3dfu64) == 0x6d3084f8ad10e358u64
        && xorshift(0x6d3084f8ad10e358u64) == 0xe1a4c64a2d25149eu64
        && xorshift(0xe1a4c64a2d25149eu64) == 0xc84dfdba20c7b937u64
        && xorshift(0xc84dfdba20c7b937u64) == 0xeeb6684ca5449b85u64
        && xorshift(0xeeb6684ca5449b85u64) == 0x25c37fad59bc53f2u64
        && xorshift(0x25c37fad59bc53f2u64) == 0x38c575f8c9cf97d5u64
        && xorshift(0x38c575f8c9cf97d5u64) == 0xa767ea9e02375dbau64) by (bit_vector);
    assert(xorshift_state(613) == 0x4759e7dddedeace6u64);
    assert(xorshift_state(614) == 0x4a291617d72ae83fu64);
    assert(xorshift_state(615) == 0x1e6ce559cb67522fu64);
    assert(xorshift_state(616) == 0x24d8c54ca5f6f74bu64);
    assert(xorshift_state(617) == 0x5aaa8c82cf23a865u64);
    assert(xorshift_state(618) == 0x4ab44e7adbb15675u64);
    assert(xorshift_state(619) == 0x04b0321cfbaf0999u64);
    assert(xorshift_state(620) == 0x9691db61eb3d11cau64);
    assert(xorshift_state(621) == 0x973296e6f7445969u64);
    assert(xorshift_state(622) == 0xed5955bd37a7ab9bu64);
    assert(xorshift_state(623) == 0x9b3f8c0d9549620cu64);
    assert(xorshift_state(624) == 0xefd8a22c17eaf3c8u64);
    assert(xorshift_state(625) == 0xcf4bcc91435ed42fu64);
    assert(xorshift_state(626) == 0x19d28ee268668247u64);
    assert(xorshift_state(627) == 0xf44c14d518583e83u64);
    assert(xorshift_state(628) == 0x43585ddf3fcb4e3eu64);
    assert(xorshift_state(629) == 0xb2d6481334e49722u64);
    assert(xorshift_state(630) == 0x7686f44b1454d68cu64);
    assert(xorshift_state(631) == 0xba8792dcb5da5c21u64);
    assert(xorshift_state(632) == 0x3093df2ab010c0d9u64);
    assert(xorshift_state(633) == 0x8395968d176bf718u64);
    assert(xorshift_state(634) == 0x4937eebf64b7e6f6u64);
    assert(xorshift_state(635) == 0x31d2549e222ff4bbu64);
    assert(xorshift_state(636) == 0x5c43c5f9a025e592u64);
    assert(xorshift_state(637) == 0x3488c543f31c8ad9u64);
    assert(xorshift_state(638) == 0xd8d4bf50699b258cu64);
    assert(xorshift_state(639) == 0xd1af59662abef0c7u64);
    assert(xorshift_state(640) == 0x0ce5b5972e835ce6u64);
    assert(xorshift_state(641) == 0x46ec69cc8c2ba3dfu64);
    assert(xorshift_state(642) == 0x6d3084f8ad10e358u64);
    assert(xorshift_state(643) == 0xe1a4c64a2d25149eu64);
    assert(xorshift_state(644) == 0xc84dfdba20c7b937u64);
    assert(xorshift_state(645) == 0xeeb6684ca5449b85u64);
    assert(xorshift_state(646) == 0x25c37fad59bc53f2u64);
    assert(xorshift_state(647) == 0x38c575f8c9cf97d5u64);
    assert(xorshift_state(648) == 0xa767ea9e02375dbau64);
}

/// Every entry of the table is the key that the generator yields for its place.
#[verifier::spinoff_prover]
proof fn lemma_keys()
    ensures
        forall|row: int| 0 <= row < 18 ==> row_matches(#[trigger] KEYS[row], row),
        off_seed(0, 648),
{
    reveal_with_fuel(xorshift_state, 1);
    assert(xorshift_state(0) == ZOBRIST_SEED);
    lemma_row_0();
    lemma_row_1();
    lemma_row_2();
    lemma_row_3();
    lemma_row_4();
    lemma_row_5();
    lemma_row_6();
    lemma_row_7();
    lemma_row_8();
    lemma_row_9();
    lemma_row_10();
    lemma_row_11();
    lemma_row_12();
    lemma_row_13();
    lemma_row_14();
    lemma_row_15();
    lemma_row_16();
    lemma_row_17();
}

} // verus!
