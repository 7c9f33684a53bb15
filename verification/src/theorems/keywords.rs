//! The keywords of the grammar, byte by byte.

use crate::lex::kw;
use vstd::prelude::*;
use vstd::string::*;

verus! {

/// The keyword `OK`, byte by byte.
pub proof fn lemma_kw_ok()
    ensures
        kw("OK").len() == 2,
        kw("OK")[0] == 'O' as u8,
        kw("OK")[1] == 'K' as u8,
{
    reveal_strlit("OK");
    is_ascii_spec_bytes("OK");
    assert(is_ascii("OK"));
}

/// The keyword `NO`, byte by byte.
pub proof fn lemma_kw_no()
    ensures
        kw("NO").len() == 2,
        kw("NO")[0] == 'N' as u8,
        kw("NO")[1] == 'O' as u8,
{
    reveal_strlit("NO");
    is_ascii_spec_bytes("NO");
    assert(is_ascii("NO"));
}

/// The keyword `BAD`, byte by byte.
pub proof fn lemma_kw_bad()
    ensures
        kw("BAD").len() == 3,
        kw("BAD")[0] == 'B' as u8,
        kw("BAD")[1] == 'A' as u8,
        kw("BAD")[2] == 'D' as u8,
{
    reveal_strlit("BAD");
    is_ascii_spec_bytes("BAD");
    assert(is_ascii("BAD"));
}

/// The keyword `BYE`, byte by byte.
pub proof fn lemma_kw_bye()
    ensures
        kw("BYE").len() == 3,
        kw("BYE")[0] == 'B' as u8,
        kw("BYE")[1] == 'Y' as u8,
        kw("BYE")[2] == 'E' as u8,
{
    reveal_strlit("BYE");
    is_ascii_spec_bytes("BYE");
    assert(is_ascii("BYE"));
}

/// The keyword `PREAUTH`, byte by byte.
pub proof fn lemma_kw_preauth()
    ensures
        kw("PREAUTH").len() == 7,
        kw("PREAUTH")[0] == 'P' as u8,
        kw("PREAUTH")[1] == 'R' as u8,
        kw("PREAUTH")[2] == 'E' as u8,
        kw("PREAUTH")[3] == 'A' as u8,
        kw("PREAUTH")[4] == 'U' as u8,
        kw("PREAUTH")[5] == 'T' as u8,
        kw("PREAUTH")[6] == 'H' as u8,
{
    reveal_strlit("PREAUTH");
    is_ascii_spec_bytes("PREAUTH");
    assert(is_ascii("PREAUTH"));
}

/// The keyword `* OK `, byte by byte.
pub proof fn lemma_kw_star_ok()
    ensures
        kw("* OK ").len() == 5,
        kw("* OK ")[0] == '*' as u8,
        kw("* OK ")[1] == ' ' as u8,
        kw("* OK ")[2] == 'O' as u8,
        kw("* OK ")[3] == 'K' as u8,
        kw("* OK ")[4] == ' ' as u8,
{
    reveal_strlit("* OK ");
    is_ascii_spec_bytes("* OK ");
    assert(is_ascii("* OK "));
}

/// The keyword `* PREAUTH `, byte by byte.
pub proof fn lemma_kw_star_preauth()
    ensures
        kw("* PREAUTH ").len() == 10,
        kw("* PREAUTH ")[0] == '*' as u8,
        kw("* PREAUTH ")[1] == ' ' as u8,
        kw("* PREAUTH ")[2] == 'P' as u8,
        kw("* PREAUTH ")[3] == 'R' as u8,
        kw("* PREAUTH ")[4] == 'E' as u8,
        kw("* PREAUTH ")[5] == 'A' as u8,
        kw("* PREAUTH ")[6] == 'U' as u8,
        kw("* PREAUTH ")[7] == 'T' as u8,
        kw("* PREAUTH ")[8] == 'H' as u8,
        kw("* PREAUTH ")[9] == ' ' as u8,
{
    reveal_strlit("* PREAUTH ");
    is_ascii_spec_bytes("* PREAUTH ");
    assert(is_ascii("* PREAUTH "));
}

/// The keyword `* BYE `, byte by byte.
pub proof fn lemma_kw_star_bye()
    ensures
        kw("* BYE ").len() == 6,
        kw("* BYE ")[0] == '*' as u8,
        kw("* BYE ")[1] == ' ' as u8,
        kw("* BYE ")[2] == 'B' as u8,
        kw("* BYE ")[3] == 'Y' as u8,
        kw("* BYE ")[4] == 'E' as u8,
        kw("* BYE ")[5] == ' ' as u8,
{
    reveal_strlit("* BYE ");
    is_ascii_spec_bytes("* BYE ");
    assert(is_ascii("* BYE "));
}

/// The keyword ` OK `, byte by byte.
pub proof fn lemma_kw_sp_ok()
    ensures
        kw(" OK ").len() == 4,
        kw(" OK ")[0] == ' ' as u8,
        kw(" OK ")[1] == 'O' as u8,
        kw(" OK ")[2] == 'K' as u8,
        kw(" OK ")[3] == ' ' as u8,
{
    reveal_strlit(" OK ");
    is_ascii_spec_bytes(" OK ");
    assert(is_ascii(" OK "));
}

/// The keyword ` NO `, byte by byte.
pub proof fn lemma_kw_sp_no()
    ensures
        kw(" NO ").len() == 4,
        kw(" NO ")[0] == ' ' as u8,
        kw(" NO ")[1] == 'N' as u8,
        kw(" NO ")[2] == 'O' as u8,
        kw(" NO ")[3] == ' ' as u8,
{
    reveal_strlit(" NO ");
    is_ascii_spec_bytes(" NO ");
    assert(is_ascii(" NO "));
}

/// The keyword ` BAD `, byte by byte.
pub proof fn lemma_kw_sp_bad()
    ensures
        kw(" BAD ").len() == 5,
        kw(" BAD ")[0] == ' ' as u8,
        kw(" BAD ")[1] == 'B' as u8,
        kw(" BAD ")[2] == 'A' as u8,
        kw(" BAD ")[3] == 'D' as u8,
        kw(" BAD ")[4] == ' ' as u8,
{
    reveal_strlit(" BAD ");
    is_ascii_spec_bytes(" BAD ");
    assert(is_ascii(" BAD "));
}

/// The keyword `* `, byte by byte.
pub proof fn lemma_kw_star()
    ensures
        kw("* ").len() == 2,
        kw("* ")[0] == '*' as u8,
        kw("* ")[1] == ' ' as u8,
{
    reveal_strlit("* ");
    is_ascii_spec_bytes("* ");
    assert(is_ascii("* "));
}

/// The keyword `+ `, byte by byte.
pub proof fn lemma_kw_plus()
    ensures
        kw("+ ").len() == 2,
        kw("+ ")[0] == '+' as u8,
        kw("+ ")[1] == ' ' as u8,
{
    reveal_strlit("+ ");
    is_ascii_spec_bytes("+ ");
    assert(is_ascii("+ "));
}

/// The keyword `ALERT`, byte by byte.
pub proof fn lemma_kw_alert()
    ensures
        kw("ALERT").len() == 5,
        kw("ALERT")[0] == 'A' as u8,
        kw("ALERT")[1] == 'L' as u8,
        kw("ALERT")[2] == 'E' as u8,
        kw("ALERT")[3] == 'R' as u8,
        kw("ALERT")[4] == 'T' as u8,
{
    reveal_strlit("ALERT");
    is_ascii_spec_bytes("ALERT");
    assert(is_ascii("ALERT"));
}

/// The keyword `BADCHARSET`, byte by byte.
pub proof fn lemma_kw_badcharset()
    ensures
        kw("BADCHARSET").len() == 10,
        kw("BADCHARSET")[0] == 'B' as u8,
        kw("BADCHARSET")[1] == 'A' as u8,
        kw("BADCHARSET")[2] == 'D' as u8,
        kw("BADCHARSET")[3] == 'C' as u8,
        kw("BADCHARSET")[4] == 'H' as u8,
        kw("BADCHARSET")[5] == 'A' as u8,
        kw("BADCHARSET")[6] == 'R' as u8,
        kw("BADCHARSET")[7] == 'S' as u8,
        kw("BADCHARSET")[8] == 'E' as u8,
        kw("BADCHARSET")[9] == 'T' as u8,
{
    reveal_strlit("BADCHARSET");
    is_ascii_spec_bytes("BADCHARSET");
    assert(is_ascii("BADCHARSET"));
}

/// The keyword ` (`, byte by byte.
pub proof fn lemma_kw_sp_paren()
    ensures
        kw(" (").len() == 2,
        kw(" (")[0] == ' ' as u8,
        kw(" (")[1] == '(' as u8,
{
    reveal_strlit(" (");
    is_ascii_spec_bytes(" (");
    assert(is_ascii(" ("));
}

/// The keyword `CAPABILITY`, byte by byte.
pub proof fn lemma_kw_capability()
    ensures
        kw("CAPABILITY").len() == 10,
        kw("CAPABILITY")[0] == 'C' as u8,
        kw("CAPABILITY")[1] == 'A' as u8,
        kw("CAPABILITY")[2] == 'P' as u8,
        kw("CAPABILITY")[3] == 'A' as u8,
        kw("CAPABILITY")[4] == 'B' as u8,
        kw("CAPABILITY")[5] == 'I' as u8,
        kw("CAPABILITY")[6] == 'L' as u8,
        kw("CAPABILITY")[7] == 'I' as u8,
        kw("CAPABILITY")[8] == 'T' as u8,
        kw("CAPABILITY")[9] == 'Y' as u8,
{
    reveal_strlit("CAPABILITY");
    is_ascii_spec_bytes("CAPABILITY");
    assert(is_ascii("CAPABILITY"));
}

/// The keyword `CAPABILITY `, byte by byte.
pub proof fn lemma_kw_capability_sp()
    ensures
        kw("CAPABILITY ").len() == 11,
        kw("CAPABILITY ")[0] == 'C' as u8,
        kw("CAPABILITY ")[1] == 'A' as u8,
        kw("CAPABILITY ")[2] == 'P' as u8,
        kw("CAPABILITY ")[3] == 'A' as u8,
        kw("CAPABILITY ")[4] == 'B' as u8,
        kw("CAPABILITY ")[5] == 'I' as u8,
        kw("CAPABILITY ")[6] == 'L' as u8,
        kw("CAPABILITY ")[7] == 'I' as u8,
        kw("CAPABILITY ")[8] == 'T' as u8,
        kw("CAPABILITY ")[9] == 'Y' as u8,
        kw("CAPABILITY ")[10] == ' ' as u8,
{
    reveal_strlit("CAPABILITY ");
    is_ascii_spec_bytes("CAPABILITY ");
    assert(is_ascii("CAPABILITY "));
}

/// The keyword `PARSE`, byte by byte.
pub proof fn lemma_kw_parse()
    ensures
        kw("PARSE").len() == 5,
        kw("PARSE")[0] == 'P' as u8,
        kw("PARSE")[1] == 'A' as u8,
        kw("PARSE")[2] == 'R' as u8,
        kw("PARSE")[3] == 'S' as u8,
        kw("PARSE")[4] == 'E' as u8,
{
    reveal_strlit("PARSE");
    is_ascii_spec_bytes("PARSE");
    assert(is_ascii("PARSE"));
}

/// The keyword `PERMANENTFLAGS`, byte by byte.
pub proof fn lemma_kw_permanentflags()
    ensures
        kw("PERMANENTFLAGS").len() == 14,
        kw("PERMANENTFLAGS")[0] == 'P' as u8,
        kw("PERMANENTFLAGS")[1] == 'E' as u8,
        kw("PERMANENTFLAGS")[2] == 'R' as u8,
        kw("PERMANENTFLAGS")[3] == 'M' as u8,
        kw("PERMANENTFLAGS")[4] == 'A' as u8,
        kw("PERMANENTFLAGS")[5] == 'N' as u8,
        kw("PERMANENTFLAGS")[6] == 'E' as u8,
        kw("PERMANENTFLAGS")[7] == 'N' as u8,
        kw("PERMANENTFLAGS")[8] == 'T' as u8,
        kw("PERMANENTFLAGS")[9] == 'F' as u8,
        kw("PERMANENTFLAGS")[10] == 'L' as u8,
        kw("PERMANENTFLAGS")[11] == 'A' as u8,
        kw("PERMANENTFLAGS")[12] == 'G' as u8,
        kw("PERMANENTFLAGS")[13] == 'S' as u8,
{
    reveal_strlit("PERMANENTFLAGS");
    is_ascii_spec_bytes("PERMANENTFLAGS");
    assert(is_ascii("PERMANENTFLAGS"));
}

/// The keyword `PERMANENTFLAGS (`, byte by byte.
pub proof fn lemma_kw_permanentflags_paren()
    ensures
        kw("PERMANENTFLAGS (").len() == 16,
        kw("PERMANENTFLAGS (")[0] == 'P' as u8,
        kw("PERMANENTFLAGS (")[1] == 'E' as u8,
        kw("PERMANENTFLAGS (")[2] == 'R' as u8,
        kw("PERMANENTFLAGS (")[3] == 'M' as u8,
        kw("PERMANENTFLAGS (")[4] == 'A' as u8,
        kw("PERMANENTFLAGS (")[5] == 'N' as u8,
        kw("PERMANENTFLAGS (")[6] == 'E' as u8,
        kw("PERMANENTFLAGS (")[7] == 'N' as u8,
        kw("PERMANENTFLAGS (")[8] == 'T' as u8,
        kw("PERMANENTFLAGS (")[9] == 'F' as u8,
        kw("PERMANENTFLAGS (")[10] == 'L' as u8,
        kw("PERMANENTFLAGS (")[11] == 'A' as u8,
        kw("PERMANENTFLAGS (")[12] == 'G' as u8,
        kw("PERMANENTFLAGS (")[13] == 'S' as u8,
        kw("PERMANENTFLAGS (")[14] == ' ' as u8,
        kw("PERMANENTFLAGS (")[15] == '(' as u8,
{
    reveal_strlit("PERMANENTFLAGS (");
    is_ascii_spec_bytes("PERMANENTFLAGS (");
    assert(is_ascii("PERMANENTFLAGS ("));
}

/// The keyword `READ-ONLY`, byte by byte.
pub proof fn lemma_kw_read_only()
    ensures
        kw("READ-ONLY").len() == 9,
        kw("READ-ONLY")[0] == 'R' as u8,
        kw("READ-ONLY")[1] == 'E' as u8,
        kw("READ-ONLY")[2] == 'A' as u8,
        kw("READ-ONLY")[3] == 'D' as u8,
        kw("READ-ONLY")[4] == '-' as u8,
        kw("READ-ONLY")[5] == 'O' as u8,
        kw("READ-ONLY")[6] == 'N' as u8,
        kw("READ-ONLY")[7] == 'L' as u8,
        kw("READ-ONLY")[8] == 'Y' as u8,
{
    reveal_strlit("READ-ONLY");
    is_ascii_spec_bytes("READ-ONLY");
    assert(is_ascii("READ-ONLY"));
}

/// The keyword `READ-WRITE`, byte by byte.
pub proof fn lemma_kw_read_write()
    ensures
        kw("READ-WRITE").len() == 10,
        kw("READ-WRITE")[0] == 'R' as u8,
        kw("READ-WRITE")[1] == 'E' as u8,
        kw("READ-WRITE")[2] == 'A' as u8,
        kw("READ-WRITE")[3] == 'D' as u8,
        kw("READ-WRITE")[4] == '-' as u8,
        kw("READ-WRITE")[5] == 'W' as u8,
        kw("READ-WRITE")[6] == 'R' as u8,
        kw("READ-WRITE")[7] == 'I' as u8,
        kw("READ-WRITE")[8] == 'T' as u8,
        kw("READ-WRITE")[9] == 'E' as u8,
{
    reveal_strlit("READ-WRITE");
    is_ascii_spec_bytes("READ-WRITE");
    assert(is_ascii("READ-WRITE"));
}

/// The keyword `TRYCREATE`, byte by byte.
pub proof fn lemma_kw_trycreate()
    ensures
        kw("TRYCREATE").len() == 9,
        kw("TRYCREATE")[0] == 'T' as u8,
        kw("TRYCREATE")[1] == 'R' as u8,
        kw("TRYCREATE")[2] == 'Y' as u8,
        kw("TRYCREATE")[3] == 'C' as u8,
        kw("TRYCREATE")[4] == 'R' as u8,
        kw("TRYCREATE")[5] == 'E' as u8,
        kw("TRYCREATE")[6] == 'A' as u8,
        kw("TRYCREATE")[7] == 'T' as u8,
        kw("TRYCREATE")[8] == 'E' as u8,
{
    reveal_strlit("TRYCREATE");
    is_ascii_spec_bytes("TRYCREATE");
    assert(is_ascii("TRYCREATE"));
}

/// The keyword `UIDNEXT`, byte by byte.
pub proof fn lemma_kw_uidnext()
    ensures
        kw("UIDNEXT").len() == 7,
        kw("UIDNEXT")[0] == 'U' as u8,
        kw("UIDNEXT")[1] == 'I' as u8,
        kw("UIDNEXT")[2] == 'D' as u8,
        kw("UIDNEXT")[3] == 'N' as u8,
        kw("UIDNEXT")[4] == 'E' as u8,
        kw("UIDNEXT")[5] == 'X' as u8,
        kw("UIDNEXT")[6] == 'T' as u8,
{
    reveal_strlit("UIDNEXT");
    is_ascii_spec_bytes("UIDNEXT");
    assert(is_ascii("UIDNEXT"));
}

/// The keyword `UIDNEXT `, byte by byte.
pub proof fn lemma_kw_uidnext_sp()
    ensures
        kw("UIDNEXT ").len() == 8,
        kw("UIDNEXT ")[0] == 'U' as u8,
        kw("UIDNEXT ")[1] == 'I' as u8,
        kw("UIDNEXT ")[2] == 'D' as u8,
        kw("UIDNEXT ")[3] == 'N' as u8,
        kw("UIDNEXT ")[4] == 'E' as u8,
        kw("UIDNEXT ")[5] == 'X' as u8,
        kw("UIDNEXT ")[6] == 'T' as u8,
        kw("UIDNEXT ")[7] == ' ' as u8,
{
    reveal_strlit("UIDNEXT ");
    is_ascii_spec_bytes("UIDNEXT ");
    assert(is_ascii("UIDNEXT "));
}

/// The keyword `UIDVALIDITY`, byte by byte.
pub proof fn lemma_kw_uidvalidity()
    ensures
        kw("UIDVALIDITY").len() == 11,
        kw("UIDVALIDITY")[0] == 'U' as u8,
        kw("UIDVALIDITY")[1] == 'I' as u8,
        kw("UIDVALIDITY")[2] == 'D' as u8,
        kw("UIDVALIDITY")[3] == 'V' as u8,
        kw("UIDVALIDITY")[4] == 'A' as u8,
        kw("UIDVALIDITY")[5] == 'L' as u8,
        kw("UIDVALIDITY")[6] == 'I' as u8,
        kw("UIDVALIDITY")[7] == 'D' as u8,
        kw("UIDVALIDITY")[8] == 'I' as u8,
        kw("UIDVALIDITY")[9] == 'T' as u8,
        kw("UIDVALIDITY")[10] == 'Y' as u8,
{
    reveal_strlit("UIDVALIDITY");
    is_ascii_spec_bytes("UIDVALIDITY");
    assert(is_ascii("UIDVALIDITY"));
}

/// The keyword `UIDVALIDITY `, byte by byte.
pub proof fn lemma_kw_uidvalidity_sp()
    ensures
        kw("UIDVALIDITY ").len() == 12,
        kw("UIDVALIDITY ")[0] == 'U' as u8,
        kw("UIDVALIDITY ")[1] == 'I' as u8,
        kw("UIDVALIDITY ")[2] == 'D' as u8,
        kw("UIDVALIDITY ")[3] == 'V' as u8,
        kw("UIDVALIDITY ")[4] == 'A' as u8,
        kw("UIDVALIDITY ")[5] == 'L' as u8,
        kw("UIDVALIDITY ")[6] == 'I' as u8,
        kw("UIDVALIDITY ")[7] == 'D' as u8,
        kw("UIDVALIDITY ")[8] == 'I' as u8,
        kw("UIDVALIDITY ")[9] == 'T' as u8,
        kw("UIDVALIDITY ")[10] == 'Y' as u8,
        kw("UIDVALIDITY ")[11] == ' ' as u8,
{
    reveal_strlit("UIDVALIDITY ");
    is_ascii_spec_bytes("UIDVALIDITY ");
    assert(is_ascii("UIDVALIDITY "));
}

/// The keyword `UNSEEN`, byte by byte.
pub proof fn lemma_kw_unseen()
    ensures
        kw("UNSEEN").len() == 6,
        kw("UNSEEN")[0] == 'U' as u8,
        kw("UNSEEN")[1] == 'N' as u8,
        kw("UNSEEN")[2] == 'S' as u8,
        kw("UNSEEN")[3] == 'E' as u8,
        kw("UNSEEN")[4] == 'E' as u8,
        kw("UNSEEN")[5] == 'N' as u8,
{
    reveal_strlit("UNSEEN");
    is_ascii_spec_bytes("UNSEEN");
    assert(is_ascii("UNSEEN"));
}

/// The keyword `UNSEEN `, byte by byte.
pub proof fn lemma_kw_unseen_sp()
    ensures
        kw("UNSEEN ").len() == 7,
        kw("UNSEEN ")[0] == 'U' as u8,
        kw("UNSEEN ")[1] == 'N' as u8,
        kw("UNSEEN ")[2] == 'S' as u8,
        kw("UNSEEN ")[3] == 'E' as u8,
        kw("UNSEEN ")[4] == 'E' as u8,
        kw("UNSEEN ")[5] == 'N' as u8,
        kw("UNSEEN ")[6] == ' ' as u8,
{
    reveal_strlit("UNSEEN ");
    is_ascii_spec_bytes("UNSEEN ");
    assert(is_ascii("UNSEEN "));
}

/// The keyword `COMPRESSIONACTIVE`, byte by byte.
pub proof fn lemma_kw_compressionactive()
    ensures
        kw("COMPRESSIONACTIVE").len() == 17,
        kw("COMPRESSIONACTIVE")[0] == 'C' as u8,
        kw("COMPRESSIONACTIVE")[1] == 'O' as u8,
        kw("COMPRESSIONACTIVE")[2] == 'M' as u8,
        kw("COMPRESSIONACTIVE")[3] == 'P' as u8,
        kw("COMPRESSIONACTIVE")[4] == 'R' as u8,
        kw("COMPRESSIONACTIVE")[5] == 'E' as u8,
        kw("COMPRESSIONACTIVE")[6] == 'S' as u8,
        kw("COMPRESSIONACTIVE")[7] == 'S' as u8,
        kw("COMPRESSIONACTIVE")[8] == 'I' as u8,
        kw("COMPRESSIONACTIVE")[9] == 'O' as u8,
        kw("COMPRESSIONACTIVE")[10] == 'N' as u8,
        kw("COMPRESSIONACTIVE")[11] == 'A' as u8,
        kw("COMPRESSIONACTIVE")[12] == 'C' as u8,
        kw("COMPRESSIONACTIVE")[13] == 'T' as u8,
        kw("COMPRESSIONACTIVE")[14] == 'I' as u8,
        kw("COMPRESSIONACTIVE")[15] == 'V' as u8,
        kw("COMPRESSIONACTIVE")[16] == 'E' as u8,
{
    reveal_strlit("COMPRESSIONACTIVE");
    is_ascii_spec_bytes("COMPRESSIONACTIVE");
    assert(is_ascii("COMPRESSIONACTIVE"));
}

/// The keyword `OVERQUOTA`, byte by byte.
pub proof fn lemma_kw_overquota()
    ensures
        kw("OVERQUOTA").len() == 9,
        kw("OVERQUOTA")[0] == 'O' as u8,
        kw("OVERQUOTA")[1] == 'V' as u8,
        kw("OVERQUOTA")[2] == 'E' as u8,
        kw("OVERQUOTA")[3] == 'R' as u8,
        kw("OVERQUOTA")[4] == 'Q' as u8,
        kw("OVERQUOTA")[5] == 'U' as u8,
        kw("OVERQUOTA")[6] == 'O' as u8,
        kw("OVERQUOTA")[7] == 'T' as u8,
        kw("OVERQUOTA")[8] == 'A' as u8,
{
    reveal_strlit("OVERQUOTA");
    is_ascii_spec_bytes("OVERQUOTA");
    assert(is_ascii("OVERQUOTA"));
}

/// The keyword `TOOBIG`, byte by byte.
pub proof fn lemma_kw_toobig()
    ensures
        kw("TOOBIG").len() == 6,
        kw("TOOBIG")[0] == 'T' as u8,
        kw("TOOBIG")[1] == 'O' as u8,
        kw("TOOBIG")[2] == 'O' as u8,
        kw("TOOBIG")[3] == 'B' as u8,
        kw("TOOBIG")[4] == 'I' as u8,
        kw("TOOBIG")[5] == 'G' as u8,
{
    reveal_strlit("TOOBIG");
    is_ascii_spec_bytes("TOOBIG");
    assert(is_ascii("TOOBIG"));
}

/// The keyword `IMAP4REV1`, byte by byte.
pub proof fn lemma_kw_imap4rev1()
    ensures
        kw("IMAP4REV1").len() == 9,
        kw("IMAP4REV1")[0] == 'I' as u8,
        kw("IMAP4REV1")[1] == 'M' as u8,
        kw("IMAP4REV1")[2] == 'A' as u8,
        kw("IMAP4REV1")[3] == 'P' as u8,
        kw("IMAP4REV1")[4] == '4' as u8,
        kw("IMAP4REV1")[5] == 'R' as u8,
        kw("IMAP4REV1")[6] == 'E' as u8,
        kw("IMAP4REV1")[7] == 'V' as u8,
        kw("IMAP4REV1")[8] == '1' as u8,
{
    reveal_strlit("IMAP4REV1");
    is_ascii_spec_bytes("IMAP4REV1");
    assert(is_ascii("IMAP4REV1"));
}

/// The keyword `LOGINDISABLED`, byte by byte.
pub proof fn lemma_kw_logindisabled()
    ensures
        kw("LOGINDISABLED").len() == 13,
        kw("LOGINDISABLED")[0] == 'L' as u8,
        kw("LOGINDISABLED")[1] == 'O' as u8,
        kw("LOGINDISABLED")[2] == 'G' as u8,
        kw("LOGINDISABLED")[3] == 'I' as u8,
        kw("LOGINDISABLED")[4] == 'N' as u8,
        kw("LOGINDISABLED")[5] == 'D' as u8,
        kw("LOGINDISABLED")[6] == 'I' as u8,
        kw("LOGINDISABLED")[7] == 'S' as u8,
        kw("LOGINDISABLED")[8] == 'A' as u8,
        kw("LOGINDISABLED")[9] == 'B' as u8,
        kw("LOGINDISABLED")[10] == 'L' as u8,
        kw("LOGINDISABLED")[11] == 'E' as u8,
        kw("LOGINDISABLED")[12] == 'D' as u8,
{
    reveal_strlit("LOGINDISABLED");
    is_ascii_spec_bytes("LOGINDISABLED");
    assert(is_ascii("LOGINDISABLED"));
}

/// The keyword `STARTTLS`, byte by byte.
pub proof fn lemma_kw_starttls()
    ensures
        kw("STARTTLS").len() == 8,
        kw("STARTTLS")[0] == 'S' as u8,
        kw("STARTTLS")[1] == 'T' as u8,
        kw("STARTTLS")[2] == 'A' as u8,
        kw("STARTTLS")[3] == 'R' as u8,
        kw("STARTTLS")[4] == 'T' as u8,
        kw("STARTTLS")[5] == 'T' as u8,
        kw("STARTTLS")[6] == 'L' as u8,
        kw("STARTTLS")[7] == 'S' as u8,
{
    reveal_strlit("STARTTLS");
    is_ascii_spec_bytes("STARTTLS");
    assert(is_ascii("STARTTLS"));
}

/// The keyword `IDLE`, byte by byte.
pub proof fn lemma_kw_idle()
    ensures
        kw("IDLE").len() == 4,
        kw("IDLE")[0] == 'I' as u8,
        kw("IDLE")[1] == 'D' as u8,
        kw("IDLE")[2] == 'L' as u8,
        kw("IDLE")[3] == 'E' as u8,
{
    reveal_strlit("IDLE");
    is_ascii_spec_bytes("IDLE");
    assert(is_ascii("IDLE"));
}

/// The keyword `MAILBOX-REFERRALS`, byte by byte.
pub proof fn lemma_kw_mailbox_referrals()
    ensures
        kw("MAILBOX-REFERRALS").len() == 17,
        kw("MAILBOX-REFERRALS")[0] == 'M' as u8,
        kw("MAILBOX-REFERRALS")[1] == 'A' as u8,
        kw("MAILBOX-REFERRALS")[2] == 'I' as u8,
        kw("MAILBOX-REFERRALS")[3] == 'L' as u8,
        kw("MAILBOX-REFERRALS")[4] == 'B' as u8,
        kw("MAILBOX-REFERRALS")[5] == 'O' as u8,
        kw("MAILBOX-REFERRALS")[6] == 'X' as u8,
        kw("MAILBOX-REFERRALS")[7] == '-' as u8,
        kw("MAILBOX-REFERRALS")[8] == 'R' as u8,
        kw("MAILBOX-REFERRALS")[9] == 'E' as u8,
        kw("MAILBOX-REFERRALS")[10] == 'F' as u8,
        kw("MAILBOX-REFERRALS")[11] == 'E' as u8,
        kw("MAILBOX-REFERRALS")[12] == 'R' as u8,
        kw("MAILBOX-REFERRALS")[13] == 'R' as u8,
        kw("MAILBOX-REFERRALS")[14] == 'A' as u8,
        kw("MAILBOX-REFERRALS")[15] == 'L' as u8,
        kw("MAILBOX-REFERRALS")[16] == 'S' as u8,
{
    reveal_strlit("MAILBOX-REFERRALS");
    is_ascii_spec_bytes("MAILBOX-REFERRALS");
    assert(is_ascii("MAILBOX-REFERRALS"));
}

/// The keyword `LOGIN-REFERRALS`, byte by byte.
pub proof fn lemma_kw_login_referrals()
    ensures
        kw("LOGIN-REFERRALS").len() == 15,
        kw("LOGIN-REFERRALS")[0] == 'L' as u8,
        kw("LOGIN-REFERRALS")[1] == 'O' as u8,
        kw("LOGIN-REFERRALS")[2] == 'G' as u8,
        kw("LOGIN-REFERRALS")[3] == 'I' as u8,
        kw("LOGIN-REFERRALS")[4] == 'N' as u8,
        kw("LOGIN-REFERRALS")[5] == '-' as u8,
        kw("LOGIN-REFERRALS")[6] == 'R' as u8,
        kw("LOGIN-REFERRALS")[7] == 'E' as u8,
        kw("LOGIN-REFERRALS")[8] == 'F' as u8,
        kw("LOGIN-REFERRALS")[9] == 'E' as u8,
        kw("LOGIN-REFERRALS")[10] == 'R' as u8,
        kw("LOGIN-REFERRALS")[11] == 'R' as u8,
        kw("LOGIN-REFERRALS")[12] == 'A' as u8,
        kw("LOGIN-REFERRALS")[13] == 'L' as u8,
        kw("LOGIN-REFERRALS")[14] == 'S' as u8,
{
    reveal_strlit("LOGIN-REFERRALS");
    is_ascii_spec_bytes("LOGIN-REFERRALS");
    assert(is_ascii("LOGIN-REFERRALS"));
}

/// The keyword `SASL-IR`, byte by byte.
pub proof fn lemma_kw_sasl_ir()
    ensures
        kw("SASL-IR").len() == 7,
        kw("SASL-IR")[0] == 'S' as u8,
        kw("SASL-IR")[1] == 'A' as u8,
        kw("SASL-IR")[2] == 'S' as u8,
        kw("SASL-IR")[3] == 'L' as u8,
        kw("SASL-IR")[4] == '-' as u8,
        kw("SASL-IR")[5] == 'I' as u8,
        kw("SASL-IR")[6] == 'R' as u8,
{
    reveal_strlit("SASL-IR");
    is_ascii_spec_bytes("SASL-IR");
    assert(is_ascii("SASL-IR"));
}

/// The keyword `ENABLE`, byte by byte.
pub proof fn lemma_kw_enable()
    ensures
        kw("ENABLE").len() == 6,
        kw("ENABLE")[0] == 'E' as u8,
        kw("ENABLE")[1] == 'N' as u8,
        kw("ENABLE")[2] == 'A' as u8,
        kw("ENABLE")[3] == 'B' as u8,
        kw("ENABLE")[4] == 'L' as u8,
        kw("ENABLE")[5] == 'E' as u8,
{
    reveal_strlit("ENABLE");
    is_ascii_spec_bytes("ENABLE");
    assert(is_ascii("ENABLE"));
}

/// The keyword `COMPRESS=DEFLATE`, byte by byte.
pub proof fn lemma_kw_compress_deflate()
    ensures
        kw("COMPRESS=DEFLATE").len() == 16,
        kw("COMPRESS=DEFLATE")[0] == 'C' as u8,
        kw("COMPRESS=DEFLATE")[1] == 'O' as u8,
        kw("COMPRESS=DEFLATE")[2] == 'M' as u8,
        kw("COMPRESS=DEFLATE")[3] == 'P' as u8,
        kw("COMPRESS=DEFLATE")[4] == 'R' as u8,
        kw("COMPRESS=DEFLATE")[5] == 'E' as u8,
        kw("COMPRESS=DEFLATE")[6] == 'S' as u8,
        kw("COMPRESS=DEFLATE")[7] == 'S' as u8,
        kw("COMPRESS=DEFLATE")[8] == '=' as u8,
        kw("COMPRESS=DEFLATE")[9] == 'D' as u8,
        kw("COMPRESS=DEFLATE")[10] == 'E' as u8,
        kw("COMPRESS=DEFLATE")[11] == 'F' as u8,
        kw("COMPRESS=DEFLATE")[12] == 'L' as u8,
        kw("COMPRESS=DEFLATE")[13] == 'A' as u8,
        kw("COMPRESS=DEFLATE")[14] == 'T' as u8,
        kw("COMPRESS=DEFLATE")[15] == 'E' as u8,
{
    reveal_strlit("COMPRESS=DEFLATE");
    is_ascii_spec_bytes("COMPRESS=DEFLATE");
    assert(is_ascii("COMPRESS=DEFLATE"));
}

/// The keyword `QUOTA`, byte by byte.
pub proof fn lemma_kw_quota()
    ensures
        kw("QUOTA").len() == 5,
        kw("QUOTA")[0] == 'Q' as u8,
        kw("QUOTA")[1] == 'U' as u8,
        kw("QUOTA")[2] == 'O' as u8,
        kw("QUOTA")[3] == 'T' as u8,
        kw("QUOTA")[4] == 'A' as u8,
{
    reveal_strlit("QUOTA");
    is_ascii_spec_bytes("QUOTA");
    assert(is_ascii("QUOTA"));
}

/// The keyword `QUOTASET`, byte by byte.
pub proof fn lemma_kw_quotaset()
    ensures
        kw("QUOTASET").len() == 8,
        kw("QUOTASET")[0] == 'Q' as u8,
        kw("QUOTASET")[1] == 'U' as u8,
        kw("QUOTASET")[2] == 'O' as u8,
        kw("QUOTASET")[3] == 'T' as u8,
        kw("QUOTASET")[4] == 'A' as u8,
        kw("QUOTASET")[5] == 'S' as u8,
        kw("QUOTASET")[6] == 'E' as u8,
        kw("QUOTASET")[7] == 'T' as u8,
{
    reveal_strlit("QUOTASET");
    is_ascii_spec_bytes("QUOTASET");
    assert(is_ascii("QUOTASET"));
}

/// The keyword `LITERAL+`, byte by byte.
pub proof fn lemma_kw_literal_plus()
    ensures
        kw("LITERAL+").len() == 8,
        kw("LITERAL+")[0] == 'L' as u8,
        kw("LITERAL+")[1] == 'I' as u8,
        kw("LITERAL+")[2] == 'T' as u8,
        kw("LITERAL+")[3] == 'E' as u8,
        kw("LITERAL+")[4] == 'R' as u8,
        kw("LITERAL+")[5] == 'A' as u8,
        kw("LITERAL+")[6] == 'L' as u8,
        kw("LITERAL+")[7] == '+' as u8,
{
    reveal_strlit("LITERAL+");
    is_ascii_spec_bytes("LITERAL+");
    assert(is_ascii("LITERAL+"));
}

/// The keyword `LITERAL-`, byte by byte.
pub proof fn lemma_kw_literal_minus()
    ensures
        kw("LITERAL-").len() == 8,
        kw("LITERAL-")[0] == 'L' as u8,
        kw("LITERAL-")[1] == 'I' as u8,
        kw("LITERAL-")[2] == 'T' as u8,
        kw("LITERAL-")[3] == 'E' as u8,
        kw("LITERAL-")[4] == 'R' as u8,
        kw("LITERAL-")[5] == 'A' as u8,
        kw("LITERAL-")[6] == 'L' as u8,
        kw("LITERAL-")[7] == '-' as u8,
{
    reveal_strlit("LITERAL-");
    is_ascii_spec_bytes("LITERAL-");
    assert(is_ascii("LITERAL-"));
}

/// The keyword `MOVE`, byte by byte.
pub proof fn lemma_kw_move()
    ensures
        kw("MOVE").len() == 4,
        kw("MOVE")[0] == 'M' as u8,
        kw("MOVE")[1] == 'O' as u8,
        kw("MOVE")[2] == 'V' as u8,
        kw("MOVE")[3] == 'E' as u8,
{
    reveal_strlit("MOVE");
    is_ascii_spec_bytes("MOVE");
    assert(is_ascii("MOVE"));
}

/// The keyword `ID`, byte by byte.
pub proof fn lemma_kw_id()
    ensures
        kw("ID").len() == 2,
        kw("ID")[0] == 'I' as u8,
        kw("ID")[1] == 'D' as u8,
{
    reveal_strlit("ID");
    is_ascii_spec_bytes("ID");
    assert(is_ascii("ID"));
}

/// The keyword `UNSELECT`, byte by byte.
pub proof fn lemma_kw_unselect()
    ensures
        kw("UNSELECT").len() == 8,
        kw("UNSELECT")[0] == 'U' as u8,
        kw("UNSELECT")[1] == 'N' as u8,
        kw("UNSELECT")[2] == 'S' as u8,
        kw("UNSELECT")[3] == 'E' as u8,
        kw("UNSELECT")[4] == 'L' as u8,
        kw("UNSELECT")[5] == 'E' as u8,
        kw("UNSELECT")[6] == 'C' as u8,
        kw("UNSELECT")[7] == 'T' as u8,
{
    reveal_strlit("UNSELECT");
    is_ascii_spec_bytes("UNSELECT");
    assert(is_ascii("UNSELECT"));
}

/// The keyword `AUTH=`, byte by byte.
pub proof fn lemma_kw_auth_eq()
    ensures
        kw("AUTH=").len() == 5,
        kw("AUTH=")[0] == 'A' as u8,
        kw("AUTH=")[1] == 'U' as u8,
        kw("AUTH=")[2] == 'T' as u8,
        kw("AUTH=")[3] == 'H' as u8,
        kw("AUTH=")[4] == '=' as u8,
{
    reveal_strlit("AUTH=");
    is_ascii_spec_bytes("AUTH=");
    assert(is_ascii("AUTH="));
}

/// The keyword `PLAIN`, byte by byte.
pub proof fn lemma_kw_plain()
    ensures
        kw("PLAIN").len() == 5,
        kw("PLAIN")[0] == 'P' as u8,
        kw("PLAIN")[1] == 'L' as u8,
        kw("PLAIN")[2] == 'A' as u8,
        kw("PLAIN")[3] == 'I' as u8,
        kw("PLAIN")[4] == 'N' as u8,
{
    reveal_strlit("PLAIN");
    is_ascii_spec_bytes("PLAIN");
    assert(is_ascii("PLAIN"));
}

/// The keyword `LOGIN`, byte by byte.
pub proof fn lemma_kw_login()
    ensures
        kw("LOGIN").len() == 5,
        kw("LOGIN")[0] == 'L' as u8,
        kw("LOGIN")[1] == 'O' as u8,
        kw("LOGIN")[2] == 'G' as u8,
        kw("LOGIN")[3] == 'I' as u8,
        kw("LOGIN")[4] == 'N' as u8,
{
    reveal_strlit("LOGIN");
    is_ascii_spec_bytes("LOGIN");
    assert(is_ascii("LOGIN"));
}

/// The keyword `OAUTHBEARER`, byte by byte.
pub proof fn lemma_kw_oauthbearer()
    ensures
        kw("OAUTHBEARER").len() == 11,
        kw("OAUTHBEARER")[0] == 'O' as u8,
        kw("OAUTHBEARER")[1] == 'A' as u8,
        kw("OAUTHBEARER")[2] == 'U' as u8,
        kw("OAUTHBEARER")[3] == 'T' as u8,
        kw("OAUTHBEARER")[4] == 'H' as u8,
        kw("OAUTHBEARER")[5] == 'B' as u8,
        kw("OAUTHBEARER")[6] == 'E' as u8,
        kw("OAUTHBEARER")[7] == 'A' as u8,
        kw("OAUTHBEARER")[8] == 'R' as u8,
        kw("OAUTHBEARER")[9] == 'E' as u8,
        kw("OAUTHBEARER")[10] == 'R' as u8,
{
    reveal_strlit("OAUTHBEARER");
    is_ascii_spec_bytes("OAUTHBEARER");
    assert(is_ascii("OAUTHBEARER"));
}

/// The keyword `XOAUTH2`, byte by byte.
pub proof fn lemma_kw_xoauth2()
    ensures
        kw("XOAUTH2").len() == 7,
        kw("XOAUTH2")[0] == 'X' as u8,
        kw("XOAUTH2")[1] == 'O' as u8,
        kw("XOAUTH2")[2] == 'A' as u8,
        kw("XOAUTH2")[3] == 'U' as u8,
        kw("XOAUTH2")[4] == 'T' as u8,
        kw("XOAUTH2")[5] == 'H' as u8,
        kw("XOAUTH2")[6] == '2' as u8,
{
    reveal_strlit("XOAUTH2");
    is_ascii_spec_bytes("XOAUTH2");
    assert(is_ascii("XOAUTH2"));
}

/// The keyword `ANSWERED`, byte by byte.
pub proof fn lemma_kw_answered()
    ensures
        kw("ANSWERED").len() == 8,
        kw("ANSWERED")[0] == 'A' as u8,
        kw("ANSWERED")[1] == 'N' as u8,
        kw("ANSWERED")[2] == 'S' as u8,
        kw("ANSWERED")[3] == 'W' as u8,
        kw("ANSWERED")[4] == 'E' as u8,
        kw("ANSWERED")[5] == 'R' as u8,
        kw("ANSWERED")[6] == 'E' as u8,
        kw("ANSWERED")[7] == 'D' as u8,
{
    reveal_strlit("ANSWERED");
    is_ascii_spec_bytes("ANSWERED");
    assert(is_ascii("ANSWERED"));
}

/// The keyword `DELETED`, byte by byte.
pub proof fn lemma_kw_deleted()
    ensures
        kw("DELETED").len() == 7,
        kw("DELETED")[0] == 'D' as u8,
        kw("DELETED")[1] == 'E' as u8,
        kw("DELETED")[2] == 'L' as u8,
        kw("DELETED")[3] == 'E' as u8,
        kw("DELETED")[4] == 'T' as u8,
        kw("DELETED")[5] == 'E' as u8,
        kw("DELETED")[6] == 'D' as u8,
{
    reveal_strlit("DELETED");
    is_ascii_spec_bytes("DELETED");
    assert(is_ascii("DELETED"));
}

/// The keyword `DRAFT`, byte by byte.
pub proof fn lemma_kw_draft()
    ensures
        kw("DRAFT").len() == 5,
        kw("DRAFT")[0] == 'D' as u8,
        kw("DRAFT")[1] == 'R' as u8,
        kw("DRAFT")[2] == 'A' as u8,
        kw("DRAFT")[3] == 'F' as u8,
        kw("DRAFT")[4] == 'T' as u8,
{
    reveal_strlit("DRAFT");
    is_ascii_spec_bytes("DRAFT");
    assert(is_ascii("DRAFT"));
}

/// The keyword `FLAGGED`, byte by byte.
pub proof fn lemma_kw_flagged()
    ensures
        kw("FLAGGED").len() == 7,
        kw("FLAGGED")[0] == 'F' as u8,
        kw("FLAGGED")[1] == 'L' as u8,
        kw("FLAGGED")[2] == 'A' as u8,
        kw("FLAGGED")[3] == 'G' as u8,
        kw("FLAGGED")[4] == 'G' as u8,
        kw("FLAGGED")[5] == 'E' as u8,
        kw("FLAGGED")[6] == 'D' as u8,
{
    reveal_strlit("FLAGGED");
    is_ascii_spec_bytes("FLAGGED");
    assert(is_ascii("FLAGGED"));
}

/// The keyword `SEEN`, byte by byte.
pub proof fn lemma_kw_seen()
    ensures
        kw("SEEN").len() == 4,
        kw("SEEN")[0] == 'S' as u8,
        kw("SEEN")[1] == 'E' as u8,
        kw("SEEN")[2] == 'E' as u8,
        kw("SEEN")[3] == 'N' as u8,
{
    reveal_strlit("SEEN");
    is_ascii_spec_bytes("SEEN");
    assert(is_ascii("SEEN"));
}

/// The keyword `RECENT`, byte by byte.
pub proof fn lemma_kw_recent()
    ensures
        kw("RECENT").len() == 6,
        kw("RECENT")[0] == 'R' as u8,
        kw("RECENT")[1] == 'E' as u8,
        kw("RECENT")[2] == 'C' as u8,
        kw("RECENT")[3] == 'E' as u8,
        kw("RECENT")[4] == 'N' as u8,
        kw("RECENT")[5] == 'T' as u8,
{
    reveal_strlit("RECENT");
    is_ascii_spec_bytes("RECENT");
    assert(is_ascii("RECENT"));
}

/// The keyword `\ANSWERED`, byte by byte.
pub proof fn lemma_kw_bs_answered()
    ensures
        kw("\\ANSWERED").len() == 9,
        kw("\\ANSWERED")[0] == '\\' as u8,
        kw("\\ANSWERED")[1] == 'A' as u8,
        kw("\\ANSWERED")[2] == 'N' as u8,
        kw("\\ANSWERED")[3] == 'S' as u8,
        kw("\\ANSWERED")[4] == 'W' as u8,
        kw("\\ANSWERED")[5] == 'E' as u8,
        kw("\\ANSWERED")[6] == 'R' as u8,
        kw("\\ANSWERED")[7] == 'E' as u8,
        kw("\\ANSWERED")[8] == 'D' as u8,
{
    reveal_strlit("\\ANSWERED");
    is_ascii_spec_bytes("\\ANSWERED");
    assert(is_ascii("\\ANSWERED"));
}

/// The keyword `\DELETED`, byte by byte.
pub proof fn lemma_kw_bs_deleted()
    ensures
        kw("\\DELETED").len() == 8,
        kw("\\DELETED")[0] == '\\' as u8,
        kw("\\DELETED")[1] == 'D' as u8,
        kw("\\DELETED")[2] == 'E' as u8,
        kw("\\DELETED")[3] == 'L' as u8,
        kw("\\DELETED")[4] == 'E' as u8,
        kw("\\DELETED")[5] == 'T' as u8,
        kw("\\DELETED")[6] == 'E' as u8,
        kw("\\DELETED")[7] == 'D' as u8,
{
    reveal_strlit("\\DELETED");
    is_ascii_spec_bytes("\\DELETED");
    assert(is_ascii("\\DELETED"));
}

/// The keyword `\DRAFT`, byte by byte.
pub proof fn lemma_kw_bs_draft()
    ensures
        kw("\\DRAFT").len() == 6,
        kw("\\DRAFT")[0] == '\\' as u8,
        kw("\\DRAFT")[1] == 'D' as u8,
        kw("\\DRAFT")[2] == 'R' as u8,
        kw("\\DRAFT")[3] == 'A' as u8,
        kw("\\DRAFT")[4] == 'F' as u8,
        kw("\\DRAFT")[5] == 'T' as u8,
{
    reveal_strlit("\\DRAFT");
    is_ascii_spec_bytes("\\DRAFT");
    assert(is_ascii("\\DRAFT"));
}

/// The keyword `\FLAGGED`, byte by byte.
pub proof fn lemma_kw_bs_flagged()
    ensures
        kw("\\FLAGGED").len() == 8,
        kw("\\FLAGGED")[0] == '\\' as u8,
        kw("\\FLAGGED")[1] == 'F' as u8,
        kw("\\FLAGGED")[2] == 'L' as u8,
        kw("\\FLAGGED")[3] == 'A' as u8,
        kw("\\FLAGGED")[4] == 'G' as u8,
        kw("\\FLAGGED")[5] == 'G' as u8,
        kw("\\FLAGGED")[6] == 'E' as u8,
        kw("\\FLAGGED")[7] == 'D' as u8,
{
    reveal_strlit("\\FLAGGED");
    is_ascii_spec_bytes("\\FLAGGED");
    assert(is_ascii("\\FLAGGED"));
}

/// The keyword `\SEEN`, byte by byte.
pub proof fn lemma_kw_bs_seen()
    ensures
        kw("\\SEEN").len() == 5,
        kw("\\SEEN")[0] == '\\' as u8,
        kw("\\SEEN")[1] == 'S' as u8,
        kw("\\SEEN")[2] == 'E' as u8,
        kw("\\SEEN")[3] == 'E' as u8,
        kw("\\SEEN")[4] == 'N' as u8,
{
    reveal_strlit("\\SEEN");
    is_ascii_spec_bytes("\\SEEN");
    assert(is_ascii("\\SEEN"));
}

/// The keyword `\RECENT`, byte by byte.
pub proof fn lemma_kw_bs_recent()
    ensures
        kw("\\RECENT").len() == 7,
        kw("\\RECENT")[0] == '\\' as u8,
        kw("\\RECENT")[1] == 'R' as u8,
        kw("\\RECENT")[2] == 'E' as u8,
        kw("\\RECENT")[3] == 'C' as u8,
        kw("\\RECENT")[4] == 'E' as u8,
        kw("\\RECENT")[5] == 'N' as u8,
        kw("\\RECENT")[6] == 'T' as u8,
{
    reveal_strlit("\\RECENT");
    is_ascii_spec_bytes("\\RECENT");
    assert(is_ascii("\\RECENT"));
}

/// The keyword `\*`, byte by byte.
pub proof fn lemma_kw_bs_star()
    ensures
        kw("\\*").len() == 2,
        kw("\\*")[0] == '\\' as u8,
        kw("\\*")[1] == '*' as u8,
{
    reveal_strlit("\\*");
    is_ascii_spec_bytes("\\*");
    assert(is_ascii("\\*"));
}

/// The keyword `"MESSAGE" "RFC822"`, byte by byte.
pub proof fn lemma_kw_media_message()
    ensures
        kw("\"MESSAGE\" \"RFC822\"").len() == 18,
        kw("\"MESSAGE\" \"RFC822\"")[0] == '"' as u8,
        kw("\"MESSAGE\" \"RFC822\"")[1] == 'M' as u8,
        kw("\"MESSAGE\" \"RFC822\"")[2] == 'E' as u8,
        kw("\"MESSAGE\" \"RFC822\"")[3] == 'S' as u8,
        kw("\"MESSAGE\" \"RFC822\"")[4] == 'S' as u8,
        kw("\"MESSAGE\" \"RFC822\"")[5] == 'A' as u8,
        kw("\"MESSAGE\" \"RFC822\"")[6] == 'G' as u8,
        kw("\"MESSAGE\" \"RFC822\"")[7] == 'E' as u8,
        kw("\"MESSAGE\" \"RFC822\"")[8] == '"' as u8,
        kw("\"MESSAGE\" \"RFC822\"")[9] == ' ' as u8,
        kw("\"MESSAGE\" \"RFC822\"")[10] == '"' as u8,
        kw("\"MESSAGE\" \"RFC822\"")[11] == 'R' as u8,
        kw("\"MESSAGE\" \"RFC822\"")[12] == 'F' as u8,
        kw("\"MESSAGE\" \"RFC822\"")[13] == 'C' as u8,
        kw("\"MESSAGE\" \"RFC822\"")[14] == '8' as u8,
        kw("\"MESSAGE\" \"RFC822\"")[15] == '2' as u8,
        kw("\"MESSAGE\" \"RFC822\"")[16] == '2' as u8,
        kw("\"MESSAGE\" \"RFC822\"")[17] == '"' as u8,
{
    reveal_strlit("\"MESSAGE\" \"RFC822\"");
    is_ascii_spec_bytes("\"MESSAGE\" \"RFC822\"");
    assert(is_ascii("\"MESSAGE\" \"RFC822\""));
}

/// The keyword `"TEXT" `, byte by byte.
pub proof fn lemma_kw_media_text()
    ensures
        kw("\"TEXT\" ").len() == 7,
        kw("\"TEXT\" ")[0] == '"' as u8,
        kw("\"TEXT\" ")[1] == 'T' as u8,
        kw("\"TEXT\" ")[2] == 'E' as u8,
        kw("\"TEXT\" ")[3] == 'X' as u8,
        kw("\"TEXT\" ")[4] == 'T' as u8,
        kw("\"TEXT\" ")[5] == '"' as u8,
        kw("\"TEXT\" ")[6] == ' ' as u8,
{
    reveal_strlit("\"TEXT\" ");
    is_ascii_spec_bytes("\"TEXT\" ");
    assert(is_ascii("\"TEXT\" "));
}

/// The keyword `NIL`, byte by byte.
pub proof fn lemma_kw_nil()
    ensures
        kw("NIL").len() == 3,
        kw("NIL")[0] == 'N' as u8,
        kw("NIL")[1] == 'I' as u8,
        kw("NIL")[2] == 'L' as u8,
{
    reveal_strlit("NIL");
    is_ascii_spec_bytes("NIL");
    assert(is_ascii("NIL"));
}

/// The keyword `INBOX`, byte by byte.
pub proof fn lemma_kw_inbox()
    ensures
        kw("INBOX").len() == 5,
        kw("INBOX")[0] == 'I' as u8,
        kw("INBOX")[1] == 'N' as u8,
        kw("INBOX")[2] == 'B' as u8,
        kw("INBOX")[3] == 'O' as u8,
        kw("INBOX")[4] == 'X' as u8,
{
    reveal_strlit("INBOX");
    is_ascii_spec_bytes("INBOX");
    assert(is_ascii("INBOX"));
}

/// The keyword `FLAGS`, byte by byte.
pub proof fn lemma_kw_flags()
    ensures
        kw("FLAGS").len() == 5,
        kw("FLAGS")[0] == 'F' as u8,
        kw("FLAGS")[1] == 'L' as u8,
        kw("FLAGS")[2] == 'A' as u8,
        kw("FLAGS")[3] == 'G' as u8,
        kw("FLAGS")[4] == 'S' as u8,
{
    reveal_strlit("FLAGS");
    is_ascii_spec_bytes("FLAGS");
    assert(is_ascii("FLAGS"));
}

/// The keyword `FLAGS `, byte by byte.
pub proof fn lemma_kw_flags_sp()
    ensures
        kw("FLAGS ").len() == 6,
        kw("FLAGS ")[0] == 'F' as u8,
        kw("FLAGS ")[1] == 'L' as u8,
        kw("FLAGS ")[2] == 'A' as u8,
        kw("FLAGS ")[3] == 'G' as u8,
        kw("FLAGS ")[4] == 'S' as u8,
        kw("FLAGS ")[5] == ' ' as u8,
{
    reveal_strlit("FLAGS ");
    is_ascii_spec_bytes("FLAGS ");
    assert(is_ascii("FLAGS "));
}

/// The keyword `LIST`, byte by byte.
pub proof fn lemma_kw_list()
    ensures
        kw("LIST").len() == 4,
        kw("LIST")[0] == 'L' as u8,
        kw("LIST")[1] == 'I' as u8,
        kw("LIST")[2] == 'S' as u8,
        kw("LIST")[3] == 'T' as u8,
{
    reveal_strlit("LIST");
    is_ascii_spec_bytes("LIST");
    assert(is_ascii("LIST"));
}

/// The keyword `LIST `, byte by byte.
pub proof fn lemma_kw_list_sp()
    ensures
        kw("LIST ").len() == 5,
        kw("LIST ")[0] == 'L' as u8,
        kw("LIST ")[1] == 'I' as u8,
        kw("LIST ")[2] == 'S' as u8,
        kw("LIST ")[3] == 'T' as u8,
        kw("LIST ")[4] == ' ' as u8,
{
    reveal_strlit("LIST ");
    is_ascii_spec_bytes("LIST ");
    assert(is_ascii("LIST "));
}

/// The keyword `LSUB`, byte by byte.
pub proof fn lemma_kw_lsub()
    ensures
        kw("LSUB").len() == 4,
        kw("LSUB")[0] == 'L' as u8,
        kw("LSUB")[1] == 'S' as u8,
        kw("LSUB")[2] == 'U' as u8,
        kw("LSUB")[3] == 'B' as u8,
{
    reveal_strlit("LSUB");
    is_ascii_spec_bytes("LSUB");
    assert(is_ascii("LSUB"));
}

/// The keyword `LSUB `, byte by byte.
pub proof fn lemma_kw_lsub_sp()
    ensures
        kw("LSUB ").len() == 5,
        kw("LSUB ")[0] == 'L' as u8,
        kw("LSUB ")[1] == 'S' as u8,
        kw("LSUB ")[2] == 'U' as u8,
        kw("LSUB ")[3] == 'B' as u8,
        kw("LSUB ")[4] == ' ' as u8,
{
    reveal_strlit("LSUB ");
    is_ascii_spec_bytes("LSUB ");
    assert(is_ascii("LSUB "));
}

/// The keyword `SEARCH`, byte by byte.
pub proof fn lemma_kw_search()
    ensures
        kw("SEARCH").len() == 6,
        kw("SEARCH")[0] == 'S' as u8,
        kw("SEARCH")[1] == 'E' as u8,
        kw("SEARCH")[2] == 'A' as u8,
        kw("SEARCH")[3] == 'R' as u8,
        kw("SEARCH")[4] == 'C' as u8,
        kw("SEARCH")[5] == 'H' as u8,
{
    reveal_strlit("SEARCH");
    is_ascii_spec_bytes("SEARCH");
    assert(is_ascii("SEARCH"));
}

/// The keyword `STATUS`, byte by byte.
pub proof fn lemma_kw_status()
    ensures
        kw("STATUS").len() == 6,
        kw("STATUS")[0] == 'S' as u8,
        kw("STATUS")[1] == 'T' as u8,
        kw("STATUS")[2] == 'A' as u8,
        kw("STATUS")[3] == 'T' as u8,
        kw("STATUS")[4] == 'U' as u8,
        kw("STATUS")[5] == 'S' as u8,
{
    reveal_strlit("STATUS");
    is_ascii_spec_bytes("STATUS");
    assert(is_ascii("STATUS"));
}

/// The keyword `STATUS `, byte by byte.
pub proof fn lemma_kw_status_sp()
    ensures
        kw("STATUS ").len() == 7,
        kw("STATUS ")[0] == 'S' as u8,
        kw("STATUS ")[1] == 'T' as u8,
        kw("STATUS ")[2] == 'A' as u8,
        kw("STATUS ")[3] == 'T' as u8,
        kw("STATUS ")[4] == 'U' as u8,
        kw("STATUS ")[5] == 'S' as u8,
        kw("STATUS ")[6] == ' ' as u8,
{
    reveal_strlit("STATUS ");
    is_ascii_spec_bytes("STATUS ");
    assert(is_ascii("STATUS "));
}

/// The keyword `EXISTS`, byte by byte.
pub proof fn lemma_kw_exists()
    ensures
        kw("EXISTS").len() == 6,
        kw("EXISTS")[0] == 'E' as u8,
        kw("EXISTS")[1] == 'X' as u8,
        kw("EXISTS")[2] == 'I' as u8,
        kw("EXISTS")[3] == 'S' as u8,
        kw("EXISTS")[4] == 'T' as u8,
        kw("EXISTS")[5] == 'S' as u8,
{
    reveal_strlit("EXISTS");
    is_ascii_spec_bytes("EXISTS");
    assert(is_ascii("EXISTS"));
}

/// The keyword ` EXISTS`, byte by byte.
pub proof fn lemma_kw_sp_exists()
    ensures
        kw(" EXISTS").len() == 7,
        kw(" EXISTS")[0] == ' ' as u8,
        kw(" EXISTS")[1] == 'E' as u8,
        kw(" EXISTS")[2] == 'X' as u8,
        kw(" EXISTS")[3] == 'I' as u8,
        kw(" EXISTS")[4] == 'S' as u8,
        kw(" EXISTS")[5] == 'T' as u8,
        kw(" EXISTS")[6] == 'S' as u8,
{
    reveal_strlit(" EXISTS");
    is_ascii_spec_bytes(" EXISTS");
    assert(is_ascii(" EXISTS"));
}

/// The keyword ` RECENT`, byte by byte.
pub proof fn lemma_kw_sp_recent()
    ensures
        kw(" RECENT").len() == 7,
        kw(" RECENT")[0] == ' ' as u8,
        kw(" RECENT")[1] == 'R' as u8,
        kw(" RECENT")[2] == 'E' as u8,
        kw(" RECENT")[3] == 'C' as u8,
        kw(" RECENT")[4] == 'E' as u8,
        kw(" RECENT")[5] == 'N' as u8,
        kw(" RECENT")[6] == 'T' as u8,
{
    reveal_strlit(" RECENT");
    is_ascii_spec_bytes(" RECENT");
    assert(is_ascii(" RECENT"));
}

/// The keyword `EXPUNGE`, byte by byte.
pub proof fn lemma_kw_expunge()
    ensures
        kw("EXPUNGE").len() == 7,
        kw("EXPUNGE")[0] == 'E' as u8,
        kw("EXPUNGE")[1] == 'X' as u8,
        kw("EXPUNGE")[2] == 'P' as u8,
        kw("EXPUNGE")[3] == 'U' as u8,
        kw("EXPUNGE")[4] == 'N' as u8,
        kw("EXPUNGE")[5] == 'G' as u8,
        kw("EXPUNGE")[6] == 'E' as u8,
{
    reveal_strlit("EXPUNGE");
    is_ascii_spec_bytes("EXPUNGE");
    assert(is_ascii("EXPUNGE"));
}

/// The keyword ` EXPUNGE`, byte by byte.
pub proof fn lemma_kw_sp_expunge()
    ensures
        kw(" EXPUNGE").len() == 8,
        kw(" EXPUNGE")[0] == ' ' as u8,
        kw(" EXPUNGE")[1] == 'E' as u8,
        kw(" EXPUNGE")[2] == 'X' as u8,
        kw(" EXPUNGE")[3] == 'P' as u8,
        kw(" EXPUNGE")[4] == 'U' as u8,
        kw(" EXPUNGE")[5] == 'N' as u8,
        kw(" EXPUNGE")[6] == 'G' as u8,
        kw(" EXPUNGE")[7] == 'E' as u8,
{
    reveal_strlit(" EXPUNGE");
    is_ascii_spec_bytes(" EXPUNGE");
    assert(is_ascii(" EXPUNGE"));
}

/// The keyword `FETCH`, byte by byte.
pub proof fn lemma_kw_fetch()
    ensures
        kw("FETCH").len() == 5,
        kw("FETCH")[0] == 'F' as u8,
        kw("FETCH")[1] == 'E' as u8,
        kw("FETCH")[2] == 'T' as u8,
        kw("FETCH")[3] == 'C' as u8,
        kw("FETCH")[4] == 'H' as u8,
{
    reveal_strlit("FETCH");
    is_ascii_spec_bytes("FETCH");
    assert(is_ascii("FETCH"));
}

/// The keyword ` FETCH `, byte by byte.
pub proof fn lemma_kw_sp_fetch_sp()
    ensures
        kw(" FETCH ").len() == 7,
        kw(" FETCH ")[0] == ' ' as u8,
        kw(" FETCH ")[1] == 'F' as u8,
        kw(" FETCH ")[2] == 'E' as u8,
        kw(" FETCH ")[3] == 'T' as u8,
        kw(" FETCH ")[4] == 'C' as u8,
        kw(" FETCH ")[5] == 'H' as u8,
        kw(" FETCH ")[6] == ' ' as u8,
{
    reveal_strlit(" FETCH ");
    is_ascii_spec_bytes(" FETCH ");
    assert(is_ascii(" FETCH "));
}

/// The keyword `QUOTAROOT `, byte by byte.
pub proof fn lemma_kw_quotaroot_sp()
    ensures
        kw("QUOTAROOT ").len() == 10,
        kw("QUOTAROOT ")[0] == 'Q' as u8,
        kw("QUOTAROOT ")[1] == 'U' as u8,
        kw("QUOTAROOT ")[2] == 'O' as u8,
        kw("QUOTAROOT ")[3] == 'T' as u8,
        kw("QUOTAROOT ")[4] == 'A' as u8,
        kw("QUOTAROOT ")[5] == 'R' as u8,
        kw("QUOTAROOT ")[6] == 'O' as u8,
        kw("QUOTAROOT ")[7] == 'O' as u8,
        kw("QUOTAROOT ")[8] == 'T' as u8,
        kw("QUOTAROOT ")[9] == ' ' as u8,
{
    reveal_strlit("QUOTAROOT ");
    is_ascii_spec_bytes("QUOTAROOT ");
    assert(is_ascii("QUOTAROOT "));
}

/// The keyword `QUOTA `, byte by byte.
pub proof fn lemma_kw_quota_sp()
    ensures
        kw("QUOTA ").len() == 6,
        kw("QUOTA ")[0] == 'Q' as u8,
        kw("QUOTA ")[1] == 'U' as u8,
        kw("QUOTA ")[2] == 'O' as u8,
        kw("QUOTA ")[3] == 'T' as u8,
        kw("QUOTA ")[4] == 'A' as u8,
        kw("QUOTA ")[5] == ' ' as u8,
{
    reveal_strlit("QUOTA ");
    is_ascii_spec_bytes("QUOTA ");
    assert(is_ascii("QUOTA "));
}

/// The keyword `ENABLED`, byte by byte.
pub proof fn lemma_kw_enabled()
    ensures
        kw("ENABLED").len() == 7,
        kw("ENABLED")[0] == 'E' as u8,
        kw("ENABLED")[1] == 'N' as u8,
        kw("ENABLED")[2] == 'A' as u8,
        kw("ENABLED")[3] == 'B' as u8,
        kw("ENABLED")[4] == 'L' as u8,
        kw("ENABLED")[5] == 'E' as u8,
        kw("ENABLED")[6] == 'D' as u8,
{
    reveal_strlit("ENABLED");
    is_ascii_spec_bytes("ENABLED");
    assert(is_ascii("ENABLED"));
}

/// The keyword `UTF8=ACCEPT`, byte by byte.
pub proof fn lemma_kw_utf8_accept()
    ensures
        kw("UTF8=ACCEPT").len() == 11,
        kw("UTF8=ACCEPT")[0] == 'U' as u8,
        kw("UTF8=ACCEPT")[1] == 'T' as u8,
        kw("UTF8=ACCEPT")[2] == 'F' as u8,
        kw("UTF8=ACCEPT")[3] == '8' as u8,
        kw("UTF8=ACCEPT")[4] == '=' as u8,
        kw("UTF8=ACCEPT")[5] == 'A' as u8,
        kw("UTF8=ACCEPT")[6] == 'C' as u8,
        kw("UTF8=ACCEPT")[7] == 'C' as u8,
        kw("UTF8=ACCEPT")[8] == 'E' as u8,
        kw("UTF8=ACCEPT")[9] == 'P' as u8,
        kw("UTF8=ACCEPT")[10] == 'T' as u8,
{
    reveal_strlit("UTF8=ACCEPT");
    is_ascii_spec_bytes("UTF8=ACCEPT");
    assert(is_ascii("UTF8=ACCEPT"));
}

/// The keyword `UTF8=ONLY`, byte by byte.
pub proof fn lemma_kw_utf8_only()
    ensures
        kw("UTF8=ONLY").len() == 9,
        kw("UTF8=ONLY")[0] == 'U' as u8,
        kw("UTF8=ONLY")[1] == 'T' as u8,
        kw("UTF8=ONLY")[2] == 'F' as u8,
        kw("UTF8=ONLY")[3] == '8' as u8,
        kw("UTF8=ONLY")[4] == '=' as u8,
        kw("UTF8=ONLY")[5] == 'O' as u8,
        kw("UTF8=ONLY")[6] == 'N' as u8,
        kw("UTF8=ONLY")[7] == 'L' as u8,
        kw("UTF8=ONLY")[8] == 'Y' as u8,
{
    reveal_strlit("UTF8=ONLY");
    is_ascii_spec_bytes("UTF8=ONLY");
    assert(is_ascii("UTF8=ONLY"));
}

/// The keyword `MESSAGES `, byte by byte.
pub proof fn lemma_kw_messages_sp()
    ensures
        kw("MESSAGES ").len() == 9,
        kw("MESSAGES ")[0] == 'M' as u8,
        kw("MESSAGES ")[1] == 'E' as u8,
        kw("MESSAGES ")[2] == 'S' as u8,
        kw("MESSAGES ")[3] == 'S' as u8,
        kw("MESSAGES ")[4] == 'A' as u8,
        kw("MESSAGES ")[5] == 'G' as u8,
        kw("MESSAGES ")[6] == 'E' as u8,
        kw("MESSAGES ")[7] == 'S' as u8,
        kw("MESSAGES ")[8] == ' ' as u8,
{
    reveal_strlit("MESSAGES ");
    is_ascii_spec_bytes("MESSAGES ");
    assert(is_ascii("MESSAGES "));
}

/// The keyword `RECENT `, byte by byte.
pub proof fn lemma_kw_recent_sp()
    ensures
        kw("RECENT ").len() == 7,
        kw("RECENT ")[0] == 'R' as u8,
        kw("RECENT ")[1] == 'E' as u8,
        kw("RECENT ")[2] == 'C' as u8,
        kw("RECENT ")[3] == 'E' as u8,
        kw("RECENT ")[4] == 'N' as u8,
        kw("RECENT ")[5] == 'T' as u8,
        kw("RECENT ")[6] == ' ' as u8,
{
    reveal_strlit("RECENT ");
    is_ascii_spec_bytes("RECENT ");
    assert(is_ascii("RECENT "));
}

/// The keyword `STORAGE`, byte by byte.
pub proof fn lemma_kw_storage()
    ensures
        kw("STORAGE").len() == 7,
        kw("STORAGE")[0] == 'S' as u8,
        kw("STORAGE")[1] == 'T' as u8,
        kw("STORAGE")[2] == 'O' as u8,
        kw("STORAGE")[3] == 'R' as u8,
        kw("STORAGE")[4] == 'A' as u8,
        kw("STORAGE")[5] == 'G' as u8,
        kw("STORAGE")[6] == 'E' as u8,
{
    reveal_strlit("STORAGE");
    is_ascii_spec_bytes("STORAGE");
    assert(is_ascii("STORAGE"));
}

/// The keyword `MESSAGE`, byte by byte.
pub proof fn lemma_kw_message()
    ensures
        kw("MESSAGE").len() == 7,
        kw("MESSAGE")[0] == 'M' as u8,
        kw("MESSAGE")[1] == 'E' as u8,
        kw("MESSAGE")[2] == 'S' as u8,
        kw("MESSAGE")[3] == 'S' as u8,
        kw("MESSAGE")[4] == 'A' as u8,
        kw("MESSAGE")[5] == 'G' as u8,
        kw("MESSAGE")[6] == 'E' as u8,
{
    reveal_strlit("MESSAGE");
    is_ascii_spec_bytes("MESSAGE");
    assert(is_ascii("MESSAGE"));
}

/// The keyword `MAILBOX`, byte by byte.
pub proof fn lemma_kw_mailbox()
    ensures
        kw("MAILBOX").len() == 7,
        kw("MAILBOX")[0] == 'M' as u8,
        kw("MAILBOX")[1] == 'A' as u8,
        kw("MAILBOX")[2] == 'I' as u8,
        kw("MAILBOX")[3] == 'L' as u8,
        kw("MAILBOX")[4] == 'B' as u8,
        kw("MAILBOX")[5] == 'O' as u8,
        kw("MAILBOX")[6] == 'X' as u8,
{
    reveal_strlit("MAILBOX");
    is_ascii_spec_bytes("MAILBOX");
    assert(is_ascii("MAILBOX"));
}

/// The keyword `ANNOTATION-STORAGE`, byte by byte.
pub proof fn lemma_kw_annotation_storage()
    ensures
        kw("ANNOTATION-STORAGE").len() == 18,
        kw("ANNOTATION-STORAGE")[0] == 'A' as u8,
        kw("ANNOTATION-STORAGE")[1] == 'N' as u8,
        kw("ANNOTATION-STORAGE")[2] == 'N' as u8,
        kw("ANNOTATION-STORAGE")[3] == 'O' as u8,
        kw("ANNOTATION-STORAGE")[4] == 'T' as u8,
        kw("ANNOTATION-STORAGE")[5] == 'A' as u8,
        kw("ANNOTATION-STORAGE")[6] == 'T' as u8,
        kw("ANNOTATION-STORAGE")[7] == 'I' as u8,
        kw("ANNOTATION-STORAGE")[8] == 'O' as u8,
        kw("ANNOTATION-STORAGE")[9] == 'N' as u8,
        kw("ANNOTATION-STORAGE")[10] == '-' as u8,
        kw("ANNOTATION-STORAGE")[11] == 'S' as u8,
        kw("ANNOTATION-STORAGE")[12] == 'T' as u8,
        kw("ANNOTATION-STORAGE")[13] == 'O' as u8,
        kw("ANNOTATION-STORAGE")[14] == 'R' as u8,
        kw("ANNOTATION-STORAGE")[15] == 'A' as u8,
        kw("ANNOTATION-STORAGE")[16] == 'G' as u8,
        kw("ANNOTATION-STORAGE")[17] == 'E' as u8,
{
    reveal_strlit("ANNOTATION-STORAGE");
    is_ascii_spec_bytes("ANNOTATION-STORAGE");
    assert(is_ascii("ANNOTATION-STORAGE"));
}

/// The keyword `Noinferiors`, byte by byte.
pub proof fn lemma_kw_noinferiors()
    ensures
        kw("Noinferiors").len() == 11,
        kw("Noinferiors")[0] == 'N' as u8,
        kw("Noinferiors")[1] == 'o' as u8,
        kw("Noinferiors")[2] == 'i' as u8,
        kw("Noinferiors")[3] == 'n' as u8,
        kw("Noinferiors")[4] == 'f' as u8,
        kw("Noinferiors")[5] == 'e' as u8,
        kw("Noinferiors")[6] == 'r' as u8,
        kw("Noinferiors")[7] == 'i' as u8,
        kw("Noinferiors")[8] == 'o' as u8,
        kw("Noinferiors")[9] == 'r' as u8,
        kw("Noinferiors")[10] == 's' as u8,
{
    reveal_strlit("Noinferiors");
    is_ascii_spec_bytes("Noinferiors");
    assert(is_ascii("Noinferiors"));
}

/// The keyword `Noselect`, byte by byte.
pub proof fn lemma_kw_noselect()
    ensures
        kw("Noselect").len() == 8,
        kw("Noselect")[0] == 'N' as u8,
        kw("Noselect")[1] == 'o' as u8,
        kw("Noselect")[2] == 's' as u8,
        kw("Noselect")[3] == 'e' as u8,
        kw("Noselect")[4] == 'l' as u8,
        kw("Noselect")[5] == 'e' as u8,
        kw("Noselect")[6] == 'c' as u8,
        kw("Noselect")[7] == 't' as u8,
{
    reveal_strlit("Noselect");
    is_ascii_spec_bytes("Noselect");
    assert(is_ascii("Noselect"));
}

/// The keyword `Marked`, byte by byte.
pub proof fn lemma_kw_marked()
    ensures
        kw("Marked").len() == 6,
        kw("Marked")[0] == 'M' as u8,
        kw("Marked")[1] == 'a' as u8,
        kw("Marked")[2] == 'r' as u8,
        kw("Marked")[3] == 'k' as u8,
        kw("Marked")[4] == 'e' as u8,
        kw("Marked")[5] == 'd' as u8,
{
    reveal_strlit("Marked");
    is_ascii_spec_bytes("Marked");
    assert(is_ascii("Marked"));
}

/// The keyword `Unmarked`, byte by byte.
pub proof fn lemma_kw_unmarked()
    ensures
        kw("Unmarked").len() == 8,
        kw("Unmarked")[0] == 'U' as u8,
        kw("Unmarked")[1] == 'n' as u8,
        kw("Unmarked")[2] == 'm' as u8,
        kw("Unmarked")[3] == 'a' as u8,
        kw("Unmarked")[4] == 'r' as u8,
        kw("Unmarked")[5] == 'k' as u8,
        kw("Unmarked")[6] == 'e' as u8,
        kw("Unmarked")[7] == 'd' as u8,
{
    reveal_strlit("Unmarked");
    is_ascii_spec_bytes("Unmarked");
    assert(is_ascii("Unmarked"));
}

/// The keyword `\Noinferiors`, byte by byte.
pub proof fn lemma_kw_bs_noinferiors()
    ensures
        kw("\\Noinferiors").len() == 12,
        kw("\\Noinferiors")[0] == '\\' as u8,
        kw("\\Noinferiors")[1] == 'N' as u8,
        kw("\\Noinferiors")[2] == 'o' as u8,
        kw("\\Noinferiors")[3] == 'i' as u8,
        kw("\\Noinferiors")[4] == 'n' as u8,
        kw("\\Noinferiors")[5] == 'f' as u8,
        kw("\\Noinferiors")[6] == 'e' as u8,
        kw("\\Noinferiors")[7] == 'r' as u8,
        kw("\\Noinferiors")[8] == 'i' as u8,
        kw("\\Noinferiors")[9] == 'o' as u8,
        kw("\\Noinferiors")[10] == 'r' as u8,
        kw("\\Noinferiors")[11] == 's' as u8,
{
    reveal_strlit("\\Noinferiors");
    is_ascii_spec_bytes("\\Noinferiors");
    assert(is_ascii("\\Noinferiors"));
}

/// The keyword `\Noselect`, byte by byte.
pub proof fn lemma_kw_bs_noselect()
    ensures
        kw("\\Noselect").len() == 9,
        kw("\\Noselect")[0] == '\\' as u8,
        kw("\\Noselect")[1] == 'N' as u8,
        kw("\\Noselect")[2] == 'o' as u8,
        kw("\\Noselect")[3] == 's' as u8,
        kw("\\Noselect")[4] == 'e' as u8,
        kw("\\Noselect")[5] == 'l' as u8,
        kw("\\Noselect")[6] == 'e' as u8,
        kw("\\Noselect")[7] == 'c' as u8,
        kw("\\Noselect")[8] == 't' as u8,
{
    reveal_strlit("\\Noselect");
    is_ascii_spec_bytes("\\Noselect");
    assert(is_ascii("\\Noselect"));
}

/// The keyword `\Marked`, byte by byte.
pub proof fn lemma_kw_bs_marked()
    ensures
        kw("\\Marked").len() == 7,
        kw("\\Marked")[0] == '\\' as u8,
        kw("\\Marked")[1] == 'M' as u8,
        kw("\\Marked")[2] == 'a' as u8,
        kw("\\Marked")[3] == 'r' as u8,
        kw("\\Marked")[4] == 'k' as u8,
        kw("\\Marked")[5] == 'e' as u8,
        kw("\\Marked")[6] == 'd' as u8,
{
    reveal_strlit("\\Marked");
    is_ascii_spec_bytes("\\Marked");
    assert(is_ascii("\\Marked"));
}

/// The keyword `\Unmarked`, byte by byte.
pub proof fn lemma_kw_bs_unmarked()
    ensures
        kw("\\Unmarked").len() == 9,
        kw("\\Unmarked")[0] == '\\' as u8,
        kw("\\Unmarked")[1] == 'U' as u8,
        kw("\\Unmarked")[2] == 'n' as u8,
        kw("\\Unmarked")[3] == 'm' as u8,
        kw("\\Unmarked")[4] == 'a' as u8,
        kw("\\Unmarked")[5] == 'r' as u8,
        kw("\\Unmarked")[6] == 'k' as u8,
        kw("\\Unmarked")[7] == 'e' as u8,
        kw("\\Unmarked")[8] == 'd' as u8,
{
    reveal_strlit("\\Unmarked");
    is_ascii_spec_bytes("\\Unmarked");
    assert(is_ascii("\\Unmarked"));
}

/// The keyword `ENVELOPE `, byte by byte.
pub proof fn lemma_kw_envelope_sp()
    ensures
        kw("ENVELOPE ").len() == 9,
        kw("ENVELOPE ")[0] == 'E' as u8,
        kw("ENVELOPE ")[1] == 'N' as u8,
        kw("ENVELOPE ")[2] == 'V' as u8,
        kw("ENVELOPE ")[3] == 'E' as u8,
        kw("ENVELOPE ")[4] == 'L' as u8,
        kw("ENVELOPE ")[5] == 'O' as u8,
        kw("ENVELOPE ")[6] == 'P' as u8,
        kw("ENVELOPE ")[7] == 'E' as u8,
        kw("ENVELOPE ")[8] == ' ' as u8,
{
    reveal_strlit("ENVELOPE ");
    is_ascii_spec_bytes("ENVELOPE ");
    assert(is_ascii("ENVELOPE "));
}

/// The keyword `INTERNALDATE `, byte by byte.
pub proof fn lemma_kw_internaldate_sp()
    ensures
        kw("INTERNALDATE ").len() == 13,
        kw("INTERNALDATE ")[0] == 'I' as u8,
        kw("INTERNALDATE ")[1] == 'N' as u8,
        kw("INTERNALDATE ")[2] == 'T' as u8,
        kw("INTERNALDATE ")[3] == 'E' as u8,
        kw("INTERNALDATE ")[4] == 'R' as u8,
        kw("INTERNALDATE ")[5] == 'N' as u8,
        kw("INTERNALDATE ")[6] == 'A' as u8,
        kw("INTERNALDATE ")[7] == 'L' as u8,
        kw("INTERNALDATE ")[8] == 'D' as u8,
        kw("INTERNALDATE ")[9] == 'A' as u8,
        kw("INTERNALDATE ")[10] == 'T' as u8,
        kw("INTERNALDATE ")[11] == 'E' as u8,
        kw("INTERNALDATE ")[12] == ' ' as u8,
{
    reveal_strlit("INTERNALDATE ");
    is_ascii_spec_bytes("INTERNALDATE ");
    assert(is_ascii("INTERNALDATE "));
}

/// The keyword `RFC822.HEADER `, byte by byte.
pub proof fn lemma_kw_rfc822_header_sp()
    ensures
        kw("RFC822.HEADER ").len() == 14,
        kw("RFC822.HEADER ")[0] == 'R' as u8,
        kw("RFC822.HEADER ")[1] == 'F' as u8,
        kw("RFC822.HEADER ")[2] == 'C' as u8,
        kw("RFC822.HEADER ")[3] == '8' as u8,
        kw("RFC822.HEADER ")[4] == '2' as u8,
        kw("RFC822.HEADER ")[5] == '2' as u8,
        kw("RFC822.HEADER ")[6] == '.' as u8,
        kw("RFC822.HEADER ")[7] == 'H' as u8,
        kw("RFC822.HEADER ")[8] == 'E' as u8,
        kw("RFC822.HEADER ")[9] == 'A' as u8,
        kw("RFC822.HEADER ")[10] == 'D' as u8,
        kw("RFC822.HEADER ")[11] == 'E' as u8,
        kw("RFC822.HEADER ")[12] == 'R' as u8,
        kw("RFC822.HEADER ")[13] == ' ' as u8,
{
    reveal_strlit("RFC822.HEADER ");
    is_ascii_spec_bytes("RFC822.HEADER ");
    assert(is_ascii("RFC822.HEADER "));
}

/// The keyword `RFC822.TEXT `, byte by byte.
pub proof fn lemma_kw_rfc822_text_sp()
    ensures
        kw("RFC822.TEXT ").len() == 12,
        kw("RFC822.TEXT ")[0] == 'R' as u8,
        kw("RFC822.TEXT ")[1] == 'F' as u8,
        kw("RFC822.TEXT ")[2] == 'C' as u8,
        kw("RFC822.TEXT ")[3] == '8' as u8,
        kw("RFC822.TEXT ")[4] == '2' as u8,
        kw("RFC822.TEXT ")[5] == '2' as u8,
        kw("RFC822.TEXT ")[6] == '.' as u8,
        kw("RFC822.TEXT ")[7] == 'T' as u8,
        kw("RFC822.TEXT ")[8] == 'E' as u8,
        kw("RFC822.TEXT ")[9] == 'X' as u8,
        kw("RFC822.TEXT ")[10] == 'T' as u8,
        kw("RFC822.TEXT ")[11] == ' ' as u8,
{
    reveal_strlit("RFC822.TEXT ");
    is_ascii_spec_bytes("RFC822.TEXT ");
    assert(is_ascii("RFC822.TEXT "));
}

/// The keyword `RFC822.SIZE `, byte by byte.
pub proof fn lemma_kw_rfc822_size_sp()
    ensures
        kw("RFC822.SIZE ").len() == 12,
        kw("RFC822.SIZE ")[0] == 'R' as u8,
        kw("RFC822.SIZE ")[1] == 'F' as u8,
        kw("RFC822.SIZE ")[2] == 'C' as u8,
        kw("RFC822.SIZE ")[3] == '8' as u8,
        kw("RFC822.SIZE ")[4] == '2' as u8,
        kw("RFC822.SIZE ")[5] == '2' as u8,
        kw("RFC822.SIZE ")[6] == '.' as u8,
        kw("RFC822.SIZE ")[7] == 'S' as u8,
        kw("RFC822.SIZE ")[8] == 'I' as u8,
        kw("RFC822.SIZE ")[9] == 'Z' as u8,
        kw("RFC822.SIZE ")[10] == 'E' as u8,
        kw("RFC822.SIZE ")[11] == ' ' as u8,
{
    reveal_strlit("RFC822.SIZE ");
    is_ascii_spec_bytes("RFC822.SIZE ");
    assert(is_ascii("RFC822.SIZE "));
}

/// The keyword `RFC822 `, byte by byte.
pub proof fn lemma_kw_rfc822_sp()
    ensures
        kw("RFC822 ").len() == 7,
        kw("RFC822 ")[0] == 'R' as u8,
        kw("RFC822 ")[1] == 'F' as u8,
        kw("RFC822 ")[2] == 'C' as u8,
        kw("RFC822 ")[3] == '8' as u8,
        kw("RFC822 ")[4] == '2' as u8,
        kw("RFC822 ")[5] == '2' as u8,
        kw("RFC822 ")[6] == ' ' as u8,
{
    reveal_strlit("RFC822 ");
    is_ascii_spec_bytes("RFC822 ");
    assert(is_ascii("RFC822 "));
}

/// The keyword `BODYSTRUCTURE `, byte by byte.
pub proof fn lemma_kw_bodystructure_sp()
    ensures
        kw("BODYSTRUCTURE ").len() == 14,
        kw("BODYSTRUCTURE ")[0] == 'B' as u8,
        kw("BODYSTRUCTURE ")[1] == 'O' as u8,
        kw("BODYSTRUCTURE ")[2] == 'D' as u8,
        kw("BODYSTRUCTURE ")[3] == 'Y' as u8,
        kw("BODYSTRUCTURE ")[4] == 'S' as u8,
        kw("BODYSTRUCTURE ")[5] == 'T' as u8,
        kw("BODYSTRUCTURE ")[6] == 'R' as u8,
        kw("BODYSTRUCTURE ")[7] == 'U' as u8,
        kw("BODYSTRUCTURE ")[8] == 'C' as u8,
        kw("BODYSTRUCTURE ")[9] == 'T' as u8,
        kw("BODYSTRUCTURE ")[10] == 'U' as u8,
        kw("BODYSTRUCTURE ")[11] == 'R' as u8,
        kw("BODYSTRUCTURE ")[12] == 'E' as u8,
        kw("BODYSTRUCTURE ")[13] == ' ' as u8,
{
    reveal_strlit("BODYSTRUCTURE ");
    is_ascii_spec_bytes("BODYSTRUCTURE ");
    assert(is_ascii("BODYSTRUCTURE "));
}

/// The keyword `BODY `, byte by byte.
pub proof fn lemma_kw_body_sp()
    ensures
        kw("BODY ").len() == 5,
        kw("BODY ")[0] == 'B' as u8,
        kw("BODY ")[1] == 'O' as u8,
        kw("BODY ")[2] == 'D' as u8,
        kw("BODY ")[3] == 'Y' as u8,
        kw("BODY ")[4] == ' ' as u8,
{
    reveal_strlit("BODY ");
    is_ascii_spec_bytes("BODY ");
    assert(is_ascii("BODY "));
}

/// The keyword `BODY`, byte by byte.
pub proof fn lemma_kw_body()
    ensures
        kw("BODY").len() == 4,
        kw("BODY")[0] == 'B' as u8,
        kw("BODY")[1] == 'O' as u8,
        kw("BODY")[2] == 'D' as u8,
        kw("BODY")[3] == 'Y' as u8,
{
    reveal_strlit("BODY");
    is_ascii_spec_bytes("BODY");
    assert(is_ascii("BODY"));
}

/// The keyword `UID `, byte by byte.
pub proof fn lemma_kw_uid_sp()
    ensures
        kw("UID ").len() == 4,
        kw("UID ")[0] == 'U' as u8,
        kw("UID ")[1] == 'I' as u8,
        kw("UID ")[2] == 'D' as u8,
        kw("UID ")[3] == ' ' as u8,
{
    reveal_strlit("UID ");
    is_ascii_spec_bytes("UID ");
    assert(is_ascii("UID "));
}

/// The keyword `Jan`, byte by byte.
pub proof fn lemma_kw_jan()
    ensures
        kw("Jan").len() == 3,
        kw("Jan")[0] == 'J' as u8,
        kw("Jan")[1] == 'a' as u8,
        kw("Jan")[2] == 'n' as u8,
{
    reveal_strlit("Jan");
    is_ascii_spec_bytes("Jan");
    assert(is_ascii("Jan"));
}

/// The keyword `Feb`, byte by byte.
pub proof fn lemma_kw_feb()
    ensures
        kw("Feb").len() == 3,
        kw("Feb")[0] == 'F' as u8,
        kw("Feb")[1] == 'e' as u8,
        kw("Feb")[2] == 'b' as u8,
{
    reveal_strlit("Feb");
    is_ascii_spec_bytes("Feb");
    assert(is_ascii("Feb"));
}

/// The keyword `Mar`, byte by byte.
pub proof fn lemma_kw_mar()
    ensures
        kw("Mar").len() == 3,
        kw("Mar")[0] == 'M' as u8,
        kw("Mar")[1] == 'a' as u8,
        kw("Mar")[2] == 'r' as u8,
{
    reveal_strlit("Mar");
    is_ascii_spec_bytes("Mar");
    assert(is_ascii("Mar"));
}

/// The keyword `Apr`, byte by byte.
pub proof fn lemma_kw_apr()
    ensures
        kw("Apr").len() == 3,
        kw("Apr")[0] == 'A' as u8,
        kw("Apr")[1] == 'p' as u8,
        kw("Apr")[2] == 'r' as u8,
{
    reveal_strlit("Apr");
    is_ascii_spec_bytes("Apr");
    assert(is_ascii("Apr"));
}

/// The keyword `May`, byte by byte.
pub proof fn lemma_kw_may()
    ensures
        kw("May").len() == 3,
        kw("May")[0] == 'M' as u8,
        kw("May")[1] == 'a' as u8,
        kw("May")[2] == 'y' as u8,
{
    reveal_strlit("May");
    is_ascii_spec_bytes("May");
    assert(is_ascii("May"));
}

/// The keyword `Jun`, byte by byte.
pub proof fn lemma_kw_jun()
    ensures
        kw("Jun").len() == 3,
        kw("Jun")[0] == 'J' as u8,
        kw("Jun")[1] == 'u' as u8,
        kw("Jun")[2] == 'n' as u8,
{
    reveal_strlit("Jun");
    is_ascii_spec_bytes("Jun");
    assert(is_ascii("Jun"));
}

/// The keyword `Jul`, byte by byte.
pub proof fn lemma_kw_jul()
    ensures
        kw("Jul").len() == 3,
        kw("Jul")[0] == 'J' as u8,
        kw("Jul")[1] == 'u' as u8,
        kw("Jul")[2] == 'l' as u8,
{
    reveal_strlit("Jul");
    is_ascii_spec_bytes("Jul");
    assert(is_ascii("Jul"));
}

/// The keyword `Aug`, byte by byte.
pub proof fn lemma_kw_aug()
    ensures
        kw("Aug").len() == 3,
        kw("Aug")[0] == 'A' as u8,
        kw("Aug")[1] == 'u' as u8,
        kw("Aug")[2] == 'g' as u8,
{
    reveal_strlit("Aug");
    is_ascii_spec_bytes("Aug");
    assert(is_ascii("Aug"));
}

/// The keyword `Sep`, byte by byte.
pub proof fn lemma_kw_sep()
    ensures
        kw("Sep").len() == 3,
        kw("Sep")[0] == 'S' as u8,
        kw("Sep")[1] == 'e' as u8,
        kw("Sep")[2] == 'p' as u8,
{
    reveal_strlit("Sep");
    is_ascii_spec_bytes("Sep");
    assert(is_ascii("Sep"));
}

/// The keyword `Oct`, byte by byte.
pub proof fn lemma_kw_oct()
    ensures
        kw("Oct").len() == 3,
        kw("Oct")[0] == 'O' as u8,
        kw("Oct")[1] == 'c' as u8,
        kw("Oct")[2] == 't' as u8,
{
    reveal_strlit("Oct");
    is_ascii_spec_bytes("Oct");
    assert(is_ascii("Oct"));
}

/// The keyword `Nov`, byte by byte.
pub proof fn lemma_kw_nov()
    ensures
        kw("Nov").len() == 3,
        kw("Nov")[0] == 'N' as u8,
        kw("Nov")[1] == 'o' as u8,
        kw("Nov")[2] == 'v' as u8,
{
    reveal_strlit("Nov");
    is_ascii_spec_bytes("Nov");
    assert(is_ascii("Nov"));
}

/// The keyword `Dec`, byte by byte.
pub proof fn lemma_kw_dec()
    ensures
        kw("Dec").len() == 3,
        kw("Dec")[0] == 'D' as u8,
        kw("Dec")[1] == 'e' as u8,
        kw("Dec")[2] == 'c' as u8,
{
    reveal_strlit("Dec");
    is_ascii_spec_bytes("Dec");
    assert(is_ascii("Dec"));
}

/// The keyword `HEADER.FIELDS.NOT`, byte by byte.
pub proof fn lemma_kw_header_fields_not()
    ensures
        kw("HEADER.FIELDS.NOT").len() == 17,
        kw("HEADER.FIELDS.NOT")[0] == 'H' as u8,
        kw("HEADER.FIELDS.NOT")[1] == 'E' as u8,
        kw("HEADER.FIELDS.NOT")[2] == 'A' as u8,
        kw("HEADER.FIELDS.NOT")[3] == 'D' as u8,
        kw("HEADER.FIELDS.NOT")[4] == 'E' as u8,
        kw("HEADER.FIELDS.NOT")[5] == 'R' as u8,
        kw("HEADER.FIELDS.NOT")[6] == '.' as u8,
        kw("HEADER.FIELDS.NOT")[7] == 'F' as u8,
        kw("HEADER.FIELDS.NOT")[8] == 'I' as u8,
        kw("HEADER.FIELDS.NOT")[9] == 'E' as u8,
        kw("HEADER.FIELDS.NOT")[10] == 'L' as u8,
        kw("HEADER.FIELDS.NOT")[11] == 'D' as u8,
        kw("HEADER.FIELDS.NOT")[12] == 'S' as u8,
        kw("HEADER.FIELDS.NOT")[13] == '.' as u8,
        kw("HEADER.FIELDS.NOT")[14] == 'N' as u8,
        kw("HEADER.FIELDS.NOT")[15] == 'O' as u8,
        kw("HEADER.FIELDS.NOT")[16] == 'T' as u8,
{
    reveal_strlit("HEADER.FIELDS.NOT");
    is_ascii_spec_bytes("HEADER.FIELDS.NOT");
    assert(is_ascii("HEADER.FIELDS.NOT"));
}

/// The keyword `HEADER.FIELDS`, byte by byte.
pub proof fn lemma_kw_header_fields()
    ensures
        kw("HEADER.FIELDS").len() == 13,
        kw("HEADER.FIELDS")[0] == 'H' as u8,
        kw("HEADER.FIELDS")[1] == 'E' as u8,
        kw("HEADER.FIELDS")[2] == 'A' as u8,
        kw("HEADER.FIELDS")[3] == 'D' as u8,
        kw("HEADER.FIELDS")[4] == 'E' as u8,
        kw("HEADER.FIELDS")[5] == 'R' as u8,
        kw("HEADER.FIELDS")[6] == '.' as u8,
        kw("HEADER.FIELDS")[7] == 'F' as u8,
        kw("HEADER.FIELDS")[8] == 'I' as u8,
        kw("HEADER.FIELDS")[9] == 'E' as u8,
        kw("HEADER.FIELDS")[10] == 'L' as u8,
        kw("HEADER.FIELDS")[11] == 'D' as u8,
        kw("HEADER.FIELDS")[12] == 'S' as u8,
{
    reveal_strlit("HEADER.FIELDS");
    is_ascii_spec_bytes("HEADER.FIELDS");
    assert(is_ascii("HEADER.FIELDS"));
}

/// The keyword `HEADER`, byte by byte.
pub proof fn lemma_kw_header()
    ensures
        kw("HEADER").len() == 6,
        kw("HEADER")[0] == 'H' as u8,
        kw("HEADER")[1] == 'E' as u8,
        kw("HEADER")[2] == 'A' as u8,
        kw("HEADER")[3] == 'D' as u8,
        kw("HEADER")[4] == 'E' as u8,
        kw("HEADER")[5] == 'R' as u8,
{
    reveal_strlit("HEADER");
    is_ascii_spec_bytes("HEADER");
    assert(is_ascii("HEADER"));
}

/// The keyword `TEXT`, byte by byte.
pub proof fn lemma_kw_text()
    ensures
        kw("TEXT").len() == 4,
        kw("TEXT")[0] == 'T' as u8,
        kw("TEXT")[1] == 'E' as u8,
        kw("TEXT")[2] == 'X' as u8,
        kw("TEXT")[3] == 'T' as u8,
{
    reveal_strlit("TEXT");
    is_ascii_spec_bytes("TEXT");
    assert(is_ascii("TEXT"));
}

/// The keyword `MIME`, byte by byte.
pub proof fn lemma_kw_mime()
    ensures
        kw("MIME").len() == 4,
        kw("MIME")[0] == 'M' as u8,
        kw("MIME")[1] == 'I' as u8,
        kw("MIME")[2] == 'M' as u8,
        kw("MIME")[3] == 'E' as u8,
{
    reveal_strlit("MIME");
    is_ascii_spec_bytes("MIME");
    assert(is_ascii("MIME"));
}

/// The keyword `.MIME`, byte by byte.
pub proof fn lemma_kw_dot_mime()
    ensures
        kw(".MIME").len() == 5,
        kw(".MIME")[0] == '.' as u8,
        kw(".MIME")[1] == 'M' as u8,
        kw(".MIME")[2] == 'I' as u8,
        kw(".MIME")[3] == 'M' as u8,
        kw(".MIME")[4] == 'E' as u8,
{
    reveal_strlit(".MIME");
    is_ascii_spec_bytes(".MIME");
    assert(is_ascii(".MIME"));
}

/// The keyword `HEADER.FIELDS.NOT `, byte by byte.
pub proof fn lemma_kw_header_fields_not_sp()
    ensures
        kw("HEADER.FIELDS.NOT ").len() == 18,
        kw("HEADER.FIELDS.NOT ")[0] == 'H' as u8,
        kw("HEADER.FIELDS.NOT ")[1] == 'E' as u8,
        kw("HEADER.FIELDS.NOT ")[2] == 'A' as u8,
        kw("HEADER.FIELDS.NOT ")[3] == 'D' as u8,
        kw("HEADER.FIELDS.NOT ")[4] == 'E' as u8,
        kw("HEADER.FIELDS.NOT ")[5] == 'R' as u8,
        kw("HEADER.FIELDS.NOT ")[6] == '.' as u8,
        kw("HEADER.FIELDS.NOT ")[7] == 'F' as u8,
        kw("HEADER.FIELDS.NOT ")[8] == 'I' as u8,
        kw("HEADER.FIELDS.NOT ")[9] == 'E' as u8,
        kw("HEADER.FIELDS.NOT ")[10] == 'L' as u8,
        kw("HEADER.FIELDS.NOT ")[11] == 'D' as u8,
        kw("HEADER.FIELDS.NOT ")[12] == 'S' as u8,
        kw("HEADER.FIELDS.NOT ")[13] == '.' as u8,
        kw("HEADER.FIELDS.NOT ")[14] == 'N' as u8,
        kw("HEADER.FIELDS.NOT ")[15] == 'O' as u8,
        kw("HEADER.FIELDS.NOT ")[16] == 'T' as u8,
        kw("HEADER.FIELDS.NOT ")[17] == ' ' as u8,
{
    reveal_strlit("HEADER.FIELDS.NOT ");
    is_ascii_spec_bytes("HEADER.FIELDS.NOT ");
    assert(is_ascii("HEADER.FIELDS.NOT "));
}

/// The keyword `HEADER.FIELDS `, byte by byte.
pub proof fn lemma_kw_header_fields_sp()
    ensures
        kw("HEADER.FIELDS ").len() == 14,
        kw("HEADER.FIELDS ")[0] == 'H' as u8,
        kw("HEADER.FIELDS ")[1] == 'E' as u8,
        kw("HEADER.FIELDS ")[2] == 'A' as u8,
        kw("HEADER.FIELDS ")[3] == 'D' as u8,
        kw("HEADER.FIELDS ")[4] == 'E' as u8,
        kw("HEADER.FIELDS ")[5] == 'R' as u8,
        kw("HEADER.FIELDS ")[6] == '.' as u8,
        kw("HEADER.FIELDS ")[7] == 'F' as u8,
        kw("HEADER.FIELDS ")[8] == 'I' as u8,
        kw("HEADER.FIELDS ")[9] == 'E' as u8,
        kw("HEADER.FIELDS ")[10] == 'L' as u8,
        kw("HEADER.FIELDS ")[11] == 'D' as u8,
        kw("HEADER.FIELDS ")[12] == 'S' as u8,
        kw("HEADER.FIELDS ")[13] == ' ' as u8,
{
    reveal_strlit("HEADER.FIELDS ");
    is_ascii_spec_bytes("HEADER.FIELDS ");
    assert(is_ascii("HEADER.FIELDS "));
}

/// The keyword `"MESSAGE" "RFC822" `, byte by byte.
pub proof fn lemma_kw_media_message_sp()
    ensures
        kw("\"MESSAGE\" \"RFC822\" ").len() == 19,
        kw("\"MESSAGE\" \"RFC822\" ")[0] == '"' as u8,
        kw("\"MESSAGE\" \"RFC822\" ")[1] == 'M' as u8,
        kw("\"MESSAGE\" \"RFC822\" ")[2] == 'E' as u8,
        kw("\"MESSAGE\" \"RFC822\" ")[3] == 'S' as u8,
        kw("\"MESSAGE\" \"RFC822\" ")[4] == 'S' as u8,
        kw("\"MESSAGE\" \"RFC822\" ")[5] == 'A' as u8,
        kw("\"MESSAGE\" \"RFC822\" ")[6] == 'G' as u8,
        kw("\"MESSAGE\" \"RFC822\" ")[7] == 'E' as u8,
        kw("\"MESSAGE\" \"RFC822\" ")[8] == '"' as u8,
        kw("\"MESSAGE\" \"RFC822\" ")[9] == ' ' as u8,
        kw("\"MESSAGE\" \"RFC822\" ")[10] == '"' as u8,
        kw("\"MESSAGE\" \"RFC822\" ")[11] == 'R' as u8,
        kw("\"MESSAGE\" \"RFC822\" ")[12] == 'F' as u8,
        kw("\"MESSAGE\" \"RFC822\" ")[13] == 'C' as u8,
        kw("\"MESSAGE\" \"RFC822\" ")[14] == '8' as u8,
        kw("\"MESSAGE\" \"RFC822\" ")[15] == '2' as u8,
        kw("\"MESSAGE\" \"RFC822\" ")[16] == '2' as u8,
        kw("\"MESSAGE\" \"RFC822\" ")[17] == '"' as u8,
        kw("\"MESSAGE\" \"RFC822\" ")[18] == ' ' as u8,
{
    reveal_strlit("\"MESSAGE\" \"RFC822\" ");
    is_ascii_spec_bytes("\"MESSAGE\" \"RFC822\" ");
    assert(is_ascii("\"MESSAGE\" \"RFC822\" "));
}

/// The keyword `RFC822`, byte by byte.
pub proof fn lemma_kw_rfc822()
    ensures
        kw("RFC822").len() == 6,
        kw("RFC822")[0] == 'R' as u8,
        kw("RFC822")[1] == 'F' as u8,
        kw("RFC822")[2] == 'C' as u8,
        kw("RFC822")[3] == '8' as u8,
        kw("RFC822")[4] == '2' as u8,
        kw("RFC822")[5] == '2' as u8,
{
    reveal_strlit("RFC822");
    is_ascii_spec_bytes("RFC822");
    assert(is_ascii("RFC822"));
}

/// The keywords that stand in response texts and at the head of status
/// lines are text.
pub proof fn lemma_words_are_text()
    ensures
        crate::lex::CharClass::Text.all(kw("ALERT")),
        crate::lex::CharClass::Text.all(kw("BADCHARSET")),
        crate::lex::CharClass::Text.all(kw(" (")),
        crate::lex::CharClass::Text.all(kw("CAPABILITY ")),
        crate::lex::CharClass::Text.all(kw("PARSE")),
        crate::lex::CharClass::Text.all(kw("PERMANENTFLAGS (")),
        crate::lex::CharClass::Text.all(kw("READ-ONLY")),
        crate::lex::CharClass::Text.all(kw("READ-WRITE")),
        crate::lex::CharClass::Text.all(kw("TRYCREATE")),
        crate::lex::CharClass::Text.all(kw("UIDNEXT ")),
        crate::lex::CharClass::Text.all(kw("UIDVALIDITY ")),
        crate::lex::CharClass::Text.all(kw("UNSEEN ")),
        crate::lex::CharClass::Text.all(kw("COMPRESSIONACTIVE")),
        crate::lex::CharClass::Text.all(kw("OVERQUOTA")),
        crate::lex::CharClass::Text.all(kw("TOOBIG")),
        crate::lex::CharClass::Text.all(kw("* OK ")),
        crate::lex::CharClass::Text.all(kw("* PREAUTH ")),
        crate::lex::CharClass::Text.all(kw("* BYE ")),
        crate::lex::CharClass::Text.all(kw(" OK ")),
        crate::lex::CharClass::Text.all(kw(" NO ")),
        crate::lex::CharClass::Text.all(kw(" BAD ")),
        crate::lex::CharClass::Text.all(kw("+ ")),
{
    lemma_text_alert();
    lemma_text_badcharset();
    lemma_text_sp_paren();
    lemma_text_capability_sp();
    lemma_text_parse();
    lemma_text_permanentflags_paren();
    lemma_text_read_only();
    lemma_text_read_write();
    lemma_text_trycreate();
    lemma_text_uidnext_sp();
    lemma_text_uidvalidity_sp();
    lemma_text_unseen_sp();
    lemma_text_compressionactive();
    lemma_text_overquota();
    lemma_text_toobig();
    lemma_text_star_ok();
    lemma_text_star_preauth();
    lemma_text_star_bye();
    lemma_text_sp_ok();
    lemma_text_sp_no();
    lemma_text_sp_bad();
    lemma_text_plus();
}

/// The keyword `ALERT` is text.
proof fn lemma_text_alert()
    ensures
        crate::lex::CharClass::Text.all(kw("ALERT")),
{
    lemma_kw_alert();
}

/// The keyword `BADCHARSET` is text.
proof fn lemma_text_badcharset()
    ensures
        crate::lex::CharClass::Text.all(kw("BADCHARSET")),
{
    lemma_kw_badcharset();
}

/// The keyword ` (` is text.
proof fn lemma_text_sp_paren()
    ensures
        crate::lex::CharClass::Text.all(kw(" (")),
{
    lemma_kw_sp_paren();
}

/// The keyword `CAPABILITY ` is text.
proof fn lemma_text_capability_sp()
    ensures
        crate::lex::CharClass::Text.all(kw("CAPABILITY ")),
{
    lemma_kw_capability_sp();
}

/// The keyword `PARSE` is text.
proof fn lemma_text_parse()
    ensures
        crate::lex::CharClass::Text.all(kw("PARSE")),
{
    lemma_kw_parse();
}

/// The keyword `PERMANENTFLAGS (` is text.
proof fn lemma_text_permanentflags_paren()
    ensures
        crate::lex::CharClass::Text.all(kw("PERMANENTFLAGS (")),
{
    lemma_kw_permanentflags_paren();
}

/// The keyword `READ-ONLY` is text.
proof fn lemma_text_read_only()
    ensures
        crate::lex::CharClass::Text.all(kw("READ-ONLY")),
{
    lemma_kw_read_only();
}

/// The keyword `READ-WRITE` is text.
proof fn lemma_text_read_write()
    ensures
        crate::lex::CharClass::Text.all(kw("READ-WRITE")),
{
    lemma_kw_read_write();
}

/// The keyword `TRYCREATE` is text.
proof fn lemma_text_trycreate()
    ensures
        crate::lex::CharClass::Text.all(kw("TRYCREATE")),
{
    lemma_kw_trycreate();
}

/// The keyword `UIDNEXT ` is text.
proof fn lemma_text_uidnext_sp()
    ensures
        crate::lex::CharClass::Text.all(kw("UIDNEXT ")),
{
    lemma_kw_uidnext_sp();
}

/// The keyword `UIDVALIDITY ` is text.
proof fn lemma_text_uidvalidity_sp()
    ensures
        crate::lex::CharClass::Text.all(kw("UIDVALIDITY ")),
{
    lemma_kw_uidvalidity_sp();
}

/// The keyword `UNSEEN ` is text.
proof fn lemma_text_unseen_sp()
    ensures
        crate::lex::CharClass::Text.all(kw("UNSEEN ")),
{
    lemma_kw_unseen_sp();
}

/// The keyword `COMPRESSIONACTIVE` is text.
proof fn lemma_text_compressionactive()
    ensures
        crate::lex::CharClass::Text.all(kw("COMPRESSIONACTIVE")),
{
    lemma_kw_compressionactive();
}

/// The keyword `OVERQUOTA` is text.
proof fn lemma_text_overquota()
    ensures
        crate::lex::CharClass::Text.all(kw("OVERQUOTA")),
{
    lemma_kw_overquota();
}

/// The keyword `TOOBIG` is text.
proof fn lemma_text_toobig()
    ensures
        crate::lex::CharClass::Text.all(kw("TOOBIG")),
{
    lemma_kw_toobig();
}

/// The keyword `* OK ` is text.
proof fn lemma_text_star_ok()
    ensures
        crate::lex::CharClass::Text.all(kw("* OK ")),
{
    lemma_kw_star_ok();
}

/// The keyword `* PREAUTH ` is text.
proof fn lemma_text_star_preauth()
    ensures
        crate::lex::CharClass::Text.all(kw("* PREAUTH ")),
{
    lemma_kw_star_preauth();
}

/// The keyword `* BYE ` is text.
proof fn lemma_text_star_bye()
    ensures
        crate::lex::CharClass::Text.all(kw("* BYE ")),
{
    lemma_kw_star_bye();
}

/// The keyword ` OK ` is text.
proof fn lemma_text_sp_ok()
    ensures
        crate::lex::CharClass::Text.all(kw(" OK ")),
{
    lemma_kw_sp_ok();
}

/// The keyword ` NO ` is text.
proof fn lemma_text_sp_no()
    ensures
        crate::lex::CharClass::Text.all(kw(" NO ")),
{
    lemma_kw_sp_no();
}

/// The keyword ` BAD ` is text.
proof fn lemma_text_sp_bad()
    ensures
        crate::lex::CharClass::Text.all(kw(" BAD ")),
{
    lemma_kw_sp_bad();
}

/// The keyword `+ ` is text.
proof fn lemma_text_plus()
    ensures
        crate::lex::CharClass::Text.all(kw("+ ")),
{
    lemma_kw_plus();
}

/// The names of capabilities, byte by byte.
pub proof fn lemma_capability_words()
    ensures
        kw("IMAP4REV1").len() == 9,
        kw("IMAP4REV1")[0] == 'I' as u8,
        kw("IMAP4REV1")[1] == 'M' as u8,
        kw("IMAP4REV1")[2] == 'A' as u8,
        kw("IMAP4REV1")[3] == 'P' as u8,
        kw("IMAP4REV1")[4] == '4' as u8,
        kw("IMAP4REV1")[5] == 'R' as u8,
        kw("IMAP4REV1")[6] == 'E' as u8,
        kw("IMAP4REV1")[7] == 'V' as u8,
        kw("IMAP4REV1")[8] == '1' as u8,
        kw("LOGINDISABLED").len() == 13,
        kw("LOGINDISABLED")[0] == 'L' as u8,
        kw("LOGINDISABLED")[1] == 'O' as u8,
        kw("LOGINDISABLED")[2] == 'G' as u8,
        kw("LOGINDISABLED")[3] == 'I' as u8,
        kw("LOGINDISABLED")[4] == 'N' as u8,
        kw("LOGINDISABLED")[5] == 'D' as u8,
        kw("LOGINDISABLED")[6] == 'I' as u8,
        kw("LOGINDISABLED")[7] == 'S' as u8,
        kw("LOGINDISABLED")[8] == 'A' as u8,
        kw("LOGINDISABLED")[9] == 'B' as u8,
        kw("LOGINDISABLED")[10] == 'L' as u8,
        kw("LOGINDISABLED")[11] == 'E' as u8,
        kw("LOGINDISABLED")[12] == 'D' as u8,
        kw("STARTTLS").len() == 8,
        kw("STARTTLS")[0] == 'S' as u8,
        kw("STARTTLS")[1] == 'T' as u8,
        kw("STARTTLS")[2] == 'A' as u8,
        kw("STARTTLS")[3] == 'R' as u8,
        kw("STARTTLS")[4] == 'T' as u8,
        kw("STARTTLS")[5] == 'T' as u8,
        kw("STARTTLS")[6] == 'L' as u8,
        kw("STARTTLS")[7] == 'S' as u8,
        kw("IDLE").len() == 4,
        kw("IDLE")[0] == 'I' as u8,
        kw("IDLE")[1] == 'D' as u8,
        kw("IDLE")[2] == 'L' as u8,
        kw("IDLE")[3] == 'E' as u8,
        kw("MAILBOX-REFERRALS").len() == 17,
        kw("MAILBOX-REFERRALS")[0] == 'M' as u8,
        kw("MAILBOX-REFERRALS")[1] == 'A' as u8,
        kw("MAILBOX-REFERRALS")[2] == 'I' as u8,
        kw("MAILBOX-REFERRALS")[3] == 'L' as u8,
        kw("MAILBOX-REFERRALS")[4] == 'B' as u8,
        kw("MAILBOX-REFERRALS")[5] == 'O' as u8,
        kw("MAILBOX-REFERRALS")[6] == 'X' as u8,
        kw("MAILBOX-REFERRALS")[7] == '-' as u8,
        kw("MAILBOX-REFERRALS")[8] == 'R' as u8,
        kw("MAILBOX-REFERRALS")[9] == 'E' as u8,
        kw("MAILBOX-REFERRALS")[10] == 'F' as u8,
        kw("MAILBOX-REFERRALS")[11] == 'E' as u8,
        kw("MAILBOX-REFERRALS")[12] == 'R' as u8,
        kw("MAILBOX-REFERRALS")[13] == 'R' as u8,
        kw("MAILBOX-REFERRALS")[14] == 'A' as u8,
        kw("MAILBOX-REFERRALS")[15] == 'L' as u8,
        kw("MAILBOX-REFERRALS")[16] == 'S' as u8,
        kw("LOGIN-REFERRALS").len() == 15,
        kw("LOGIN-REFERRALS")[0] == 'L' as u8,
        kw("LOGIN-REFERRALS")[1] == 'O' as u8,
        kw("LOGIN-REFERRALS")[2] == 'G' as u8,
        kw("LOGIN-REFERRALS")[3] == 'I' as u8,
        kw("LOGIN-REFERRALS")[4] == 'N' as u8,
        kw("LOGIN-REFERRALS")[5] == '-' as u8,
        kw("LOGIN-REFERRALS")[6] == 'R' as u8,
        kw("LOGIN-REFERRALS")[7] == 'E' as u8,
        kw("LOGIN-REFERRALS")[8] == 'F' as u8,
        kw("LOGIN-REFERRALS")[9] == 'E' as u8,
        kw("LOGIN-REFERRALS")[10] == 'R' as u8,
        kw("LOGIN-REFERRALS")[11] == 'R' as u8,
        kw("LOGIN-REFERRALS")[12] == 'A' as u8,
        kw("LOGIN-REFERRALS")[13] == 'L' as u8,
        kw("LOGIN-REFERRALS")[14] == 'S' as u8,
        kw("SASL-IR").len() == 7,
        kw("SASL-IR")[0] == 'S' as u8,
        kw("SASL-IR")[1] == 'A' as u8,
        kw("SASL-IR")[2] == 'S' as u8,
        kw("SASL-IR")[3] == 'L' as u8,
        kw("SASL-IR")[4] == '-' as u8,
        kw("SASL-IR")[5] == 'I' as u8,
        kw("SASL-IR")[6] == 'R' as u8,
        kw("ENABLE").len() == 6,
        kw("ENABLE")[0] == 'E' as u8,
        kw("ENABLE")[1] == 'N' as u8,
        kw("ENABLE")[2] == 'A' as u8,
        kw("ENABLE")[3] == 'B' as u8,
        kw("ENABLE")[4] == 'L' as u8,
        kw("ENABLE")[5] == 'E' as u8,
        kw("COMPRESS=DEFLATE").len() == 16,
        kw("COMPRESS=DEFLATE")[0] == 'C' as u8,
        kw("COMPRESS=DEFLATE")[1] == 'O' as u8,
        kw("COMPRESS=DEFLATE")[2] == 'M' as u8,
        kw("COMPRESS=DEFLATE")[3] == 'P' as u8,
        kw("COMPRESS=DEFLATE")[4] == 'R' as u8,
        kw("COMPRESS=DEFLATE")[5] == 'E' as u8,
        kw("COMPRESS=DEFLATE")[6] == 'S' as u8,
        kw("COMPRESS=DEFLATE")[7] == 'S' as u8,
        kw("COMPRESS=DEFLATE")[8] == '=' as u8,
        kw("COMPRESS=DEFLATE")[9] == 'D' as u8,
        kw("COMPRESS=DEFLATE")[10] == 'E' as u8,
        kw("COMPRESS=DEFLATE")[11] == 'F' as u8,
        kw("COMPRESS=DEFLATE")[12] == 'L' as u8,
        kw("COMPRESS=DEFLATE")[13] == 'A' as u8,
        kw("COMPRESS=DEFLATE")[14] == 'T' as u8,
        kw("COMPRESS=DEFLATE")[15] == 'E' as u8,
        kw("QUOTA").len() == 5,
        kw("QUOTA")[0] == 'Q' as u8,
        kw("QUOTA")[1] == 'U' as u8,
        kw("QUOTA")[2] == 'O' as u8,
        kw("QUOTA")[3] == 'T' as u8,
        kw("QUOTA")[4] == 'A' as u8,
        kw("QUOTASET").len() == 8,
        kw("QUOTASET")[0] == 'Q' as u8,
        kw("QUOTASET")[1] == 'U' as u8,
        kw("QUOTASET")[2] == 'O' as u8,
        kw("QUOTASET")[3] == 'T' as u8,
        kw("QUOTASET")[4] == 'A' as u8,
        kw("QUOTASET")[5] == 'S' as u8,
        kw("QUOTASET")[6] == 'E' as u8,
        kw("QUOTASET")[7] == 'T' as u8,
        kw("LITERAL+").len() == 8,
        kw("LITERAL+")[0] == 'L' as u8,
        kw("LITERAL+")[1] == 'I' as u8,
        kw("LITERAL+")[2] == 'T' as u8,
        kw("LITERAL+")[3] == 'E' as u8,
        kw("LITERAL+")[4] == 'R' as u8,
        kw("LITERAL+")[5] == 'A' as u8,
        kw("LITERAL+")[6] == 'L' as u8,
        kw("LITERAL+")[7] == '+' as u8,
        kw("LITERAL-").len() == 8,
        kw("LITERAL-")[0] == 'L' as u8,
        kw("LITERAL-")[1] == 'I' as u8,
        kw("LITERAL-")[2] == 'T' as u8,
        kw("LITERAL-")[3] == 'E' as u8,
        kw("LITERAL-")[4] == 'R' as u8,
        kw("LITERAL-")[5] == 'A' as u8,
        kw("LITERAL-")[6] == 'L' as u8,
        kw("LITERAL-")[7] == '-' as u8,
        kw("MOVE").len() == 4,
        kw("MOVE")[0] == 'M' as u8,
        kw("MOVE")[1] == 'O' as u8,
        kw("MOVE")[2] == 'V' as u8,
        kw("MOVE")[3] == 'E' as u8,
        kw("ID").len() == 2,
        kw("ID")[0] == 'I' as u8,
        kw("ID")[1] == 'D' as u8,
        kw("UNSELECT").len() == 8,
        kw("UNSELECT")[0] == 'U' as u8,
        kw("UNSELECT")[1] == 'N' as u8,
        kw("UNSELECT")[2] == 'S' as u8,
        kw("UNSELECT")[3] == 'E' as u8,
        kw("UNSELECT")[4] == 'L' as u8,
        kw("UNSELECT")[5] == 'E' as u8,
        kw("UNSELECT")[6] == 'C' as u8,
        kw("UNSELECT")[7] == 'T' as u8,
        kw("AUTH=").len() == 5,
        kw("AUTH=")[0] == 'A' as u8,
        kw("AUTH=")[1] == 'U' as u8,
        kw("AUTH=")[2] == 'T' as u8,
        kw("AUTH=")[3] == 'H' as u8,
        kw("AUTH=")[4] == '=' as u8,
{
    lemma_kw_imap4rev1();
    lemma_kw_logindisabled();
    lemma_kw_starttls();
    lemma_kw_idle();
    lemma_kw_mailbox_referrals();
    lemma_kw_login_referrals();
    lemma_kw_sasl_ir();
    lemma_kw_enable();
    lemma_kw_compress_deflate();
    lemma_kw_quota();
    lemma_kw_quotaset();
    lemma_kw_literal_plus();
    lemma_kw_literal_minus();
    lemma_kw_move();
    lemma_kw_id();
    lemma_kw_unselect();
    lemma_kw_auth_eq();
}

/// The names of authentication mechanisms, byte by byte.
pub proof fn lemma_auth_words()
    ensures
        kw("PLAIN").len() == 5,
        kw("PLAIN")[0] == 'P' as u8,
        kw("PLAIN")[1] == 'L' as u8,
        kw("PLAIN")[2] == 'A' as u8,
        kw("PLAIN")[3] == 'I' as u8,
        kw("PLAIN")[4] == 'N' as u8,
        kw("LOGIN").len() == 5,
        kw("LOGIN")[0] == 'L' as u8,
        kw("LOGIN")[1] == 'O' as u8,
        kw("LOGIN")[2] == 'G' as u8,
        kw("LOGIN")[3] == 'I' as u8,
        kw("LOGIN")[4] == 'N' as u8,
        kw("OAUTHBEARER").len() == 11,
        kw("OAUTHBEARER")[0] == 'O' as u8,
        kw("OAUTHBEARER")[1] == 'A' as u8,
        kw("OAUTHBEARER")[2] == 'U' as u8,
        kw("OAUTHBEARER")[3] == 'T' as u8,
        kw("OAUTHBEARER")[4] == 'H' as u8,
        kw("OAUTHBEARER")[5] == 'B' as u8,
        kw("OAUTHBEARER")[6] == 'E' as u8,
        kw("OAUTHBEARER")[7] == 'A' as u8,
        kw("OAUTHBEARER")[8] == 'R' as u8,
        kw("OAUTHBEARER")[9] == 'E' as u8,
        kw("OAUTHBEARER")[10] == 'R' as u8,
        kw("XOAUTH2").len() == 7,
        kw("XOAUTH2")[0] == 'X' as u8,
        kw("XOAUTH2")[1] == 'O' as u8,
        kw("XOAUTH2")[2] == 'A' as u8,
        kw("XOAUTH2")[3] == 'U' as u8,
        kw("XOAUTH2")[4] == 'T' as u8,
        kw("XOAUTH2")[5] == 'H' as u8,
        kw("XOAUTH2")[6] == '2' as u8,
{
    lemma_kw_plain();
    lemma_kw_login();
    lemma_kw_oauthbearer();
    lemma_kw_xoauth2();
}

/// The names of the months, byte by byte.
pub proof fn lemma_month_words()
    ensures
        kw("Jan").len() == 3,
        kw("Jan")[0] == 'J' as u8,
        kw("Jan")[1] == 'a' as u8,
        kw("Jan")[2] == 'n' as u8,
        kw("Feb").len() == 3,
        kw("Feb")[0] == 'F' as u8,
        kw("Feb")[1] == 'e' as u8,
        kw("Feb")[2] == 'b' as u8,
        kw("Mar").len() == 3,
        kw("Mar")[0] == 'M' as u8,
        kw("Mar")[1] == 'a' as u8,
        kw("Mar")[2] == 'r' as u8,
        kw("Apr").len() == 3,
        kw("Apr")[0] == 'A' as u8,
        kw("Apr")[1] == 'p' as u8,
        kw("Apr")[2] == 'r' as u8,
        kw("May").len() == 3,
        kw("May")[0] == 'M' as u8,
        kw("May")[1] == 'a' as u8,
        kw("May")[2] == 'y' as u8,
        kw("Jun").len() == 3,
        kw("Jun")[0] == 'J' as u8,
        kw("Jun")[1] == 'u' as u8,
        kw("Jun")[2] == 'n' as u8,
        kw("Jul").len() == 3,
        kw("Jul")[0] == 'J' as u8,
        kw("Jul")[1] == 'u' as u8,
        kw("Jul")[2] == 'l' as u8,
        kw("Aug").len() == 3,
        kw("Aug")[0] == 'A' as u8,
        kw("Aug")[1] == 'u' as u8,
        kw("Aug")[2] == 'g' as u8,
        kw("Sep").len() == 3,
        kw("Sep")[0] == 'S' as u8,
        kw("Sep")[1] == 'e' as u8,
        kw("Sep")[2] == 'p' as u8,
        kw("Oct").len() == 3,
        kw("Oct")[0] == 'O' as u8,
        kw("Oct")[1] == 'c' as u8,
        kw("Oct")[2] == 't' as u8,
        kw("Nov").len() == 3,
        kw("Nov")[0] == 'N' as u8,
        kw("Nov")[1] == 'o' as u8,
        kw("Nov")[2] == 'v' as u8,
        kw("Dec").len() == 3,
        kw("Dec")[0] == 'D' as u8,
        kw("Dec")[1] == 'e' as u8,
        kw("Dec")[2] == 'c' as u8,
{
    lemma_kw_jan();
    lemma_kw_feb();
    lemma_kw_mar();
    lemma_kw_apr();
    lemma_kw_may();
    lemma_kw_jun();
    lemma_kw_jul();
    lemma_kw_aug();
    lemma_kw_sep();
    lemma_kw_oct();
    lemma_kw_nov();
    lemma_kw_dec();
}

/// The names of flags, byte by byte.
pub proof fn lemma_flag_words()
    ensures
        kw("ANSWERED").len() == 8,
        kw("ANSWERED")[0] == 'A' as u8,
        kw("ANSWERED")[1] == 'N' as u8,
        kw("ANSWERED")[2] == 'S' as u8,
        kw("ANSWERED")[3] == 'W' as u8,
        kw("ANSWERED")[4] == 'E' as u8,
        kw("ANSWERED")[5] == 'R' as u8,
        kw("ANSWERED")[6] == 'E' as u8,
        kw("ANSWERED")[7] == 'D' as u8,
        kw("DELETED").len() == 7,
        kw("DELETED")[0] == 'D' as u8,
        kw("DELETED")[1] == 'E' as u8,
        kw("DELETED")[2] == 'L' as u8,
        kw("DELETED")[3] == 'E' as u8,
        kw("DELETED")[4] == 'T' as u8,
        kw("DELETED")[5] == 'E' as u8,
        kw("DELETED")[6] == 'D' as u8,
        kw("DRAFT").len() == 5,
        kw("DRAFT")[0] == 'D' as u8,
        kw("DRAFT")[1] == 'R' as u8,
        kw("DRAFT")[2] == 'A' as u8,
        kw("DRAFT")[3] == 'F' as u8,
        kw("DRAFT")[4] == 'T' as u8,
        kw("FLAGGED").len() == 7,
        kw("FLAGGED")[0] == 'F' as u8,
        kw("FLAGGED")[1] == 'L' as u8,
        kw("FLAGGED")[2] == 'A' as u8,
        kw("FLAGGED")[3] == 'G' as u8,
        kw("FLAGGED")[4] == 'G' as u8,
        kw("FLAGGED")[5] == 'E' as u8,
        kw("FLAGGED")[6] == 'D' as u8,
        kw("SEEN").len() == 4,
        kw("SEEN")[0] == 'S' as u8,
        kw("SEEN")[1] == 'E' as u8,
        kw("SEEN")[2] == 'E' as u8,
        kw("SEEN")[3] == 'N' as u8,
        kw("RECENT").len() == 6,
        kw("RECENT")[0] == 'R' as u8,
        kw("RECENT")[1] == 'E' as u8,
        kw("RECENT")[2] == 'C' as u8,
        kw("RECENT")[3] == 'E' as u8,
        kw("RECENT")[4] == 'N' as u8,
        kw("RECENT")[5] == 'T' as u8,
        kw("\\ANSWERED").len() == 9,
        kw("\\ANSWERED")[0] == '\\' as u8,
        kw("\\ANSWERED")[1] == 'A' as u8,
        kw("\\ANSWERED")[2] == 'N' as u8,
        kw("\\ANSWERED")[3] == 'S' as u8,
        kw("\\ANSWERED")[4] == 'W' as u8,
        kw("\\ANSWERED")[5] == 'E' as u8,
        kw("\\ANSWERED")[6] == 'R' as u8,
        kw("\\ANSWERED")[7] == 'E' as u8,
        kw("\\ANSWERED")[8] == 'D' as u8,
        kw("\\DELETED").len() == 8,
        kw("\\DELETED")[0] == '\\' as u8,
        kw("\\DELETED")[1] == 'D' as u8,
        kw("\\DELETED")[2] == 'E' as u8,
        kw("\\DELETED")[3] == 'L' as u8,
        kw("\\DELETED")[4] == 'E' as u8,
        kw("\\DELETED")[5] == 'T' as u8,
        kw("\\DELETED")[6] == 'E' as u8,
        kw("\\DELETED")[7] == 'D' as u8,
        kw("\\DRAFT").len() == 6,
        kw("\\DRAFT")[0] == '\\' as u8,
        kw("\\DRAFT")[1] == 'D' as u8,
        kw("\\DRAFT")[2] == 'R' as u8,
        kw("\\DRAFT")[3] == 'A' as u8,
        kw("\\DRAFT")[4] == 'F' as u8,
        kw("\\DRAFT")[5] == 'T' as u8,
        kw("\\FLAGGED").len() == 8,
        kw("\\FLAGGED")[0] == '\\' as u8,
        kw("\\FLAGGED")[1] == 'F' as u8,
        kw("\\FLAGGED")[2] == 'L' as u8,
        kw("\\FLAGGED")[3] == 'A' as u8,
        kw("\\FLAGGED")[4] == 'G' as u8,
        kw("\\FLAGGED")[5] == 'G' as u8,
        kw("\\FLAGGED")[6] == 'E' as u8,
        kw("\\FLAGGED")[7] == 'D' as u8,
        kw("\\SEEN").len() == 5,
        kw("\\SEEN")[0] == '\\' as u8,
        kw("\\SEEN")[1] == 'S' as u8,
        kw("\\SEEN")[2] == 'E' as u8,
        kw("\\SEEN")[3] == 'E' as u8,
        kw("\\SEEN")[4] == 'N' as u8,
        kw("\\RECENT").len() == 7,
        kw("\\RECENT")[0] == '\\' as u8,
        kw("\\RECENT")[1] == 'R' as u8,
        kw("\\RECENT")[2] == 'E' as u8,
        kw("\\RECENT")[3] == 'C' as u8,
        kw("\\RECENT")[4] == 'E' as u8,
        kw("\\RECENT")[5] == 'N' as u8,
        kw("\\RECENT")[6] == 'T' as u8,
        kw("\\*").len() == 2,
        kw("\\*")[0] == '\\' as u8,
        kw("\\*")[1] == '*' as u8,
{
    lemma_kw_answered();
    lemma_kw_deleted();
    lemma_kw_draft();
    lemma_kw_flagged();
    lemma_kw_seen();
    lemma_kw_recent();
    lemma_kw_bs_answered();
    lemma_kw_bs_deleted();
    lemma_kw_bs_draft();
    lemma_kw_bs_flagged();
    lemma_kw_bs_seen();
    lemma_kw_bs_recent();
    lemma_kw_bs_star();
}

} // verus!
